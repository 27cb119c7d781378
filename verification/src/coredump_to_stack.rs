//! From a coredump to the stack of its first thread, with the names and
//! the places that the debugging information gives.

use crate::ast::{CustomSection, Module, Section, Value, names_view};
use crate::coredump_types::{StackFrame, StackFrameV};
use crate::parser::{
    DecodeError, InputContext, decode_module, decode_section_custom_name, parse, parse_debug_names,
};
use crate::printer::{encode_name, header, sized, write_header, write_section};
use crate::traverse::{WasmModule, reversed, same_text};
use crate::wast::{decimal, write_decimal};
use std::collections::HashMap;
use vstd::prelude::*;
use vstd::string::StringExecFns;

verus! {

/// The place of a function in the source.
#[derive(Debug, Clone, PartialEq)]
pub struct FrameLocation {
    pub file: String,
    pub line: u32,
}

/// What a `FrameLocation` holds.
pub struct FrameLocationV {
    pub file: Seq<char>,
    pub line: u32,
}

impl DeepView for FrameLocation {
    type V = FrameLocationV;

    open spec fn deep_view(&self) -> FrameLocationV {
        FrameLocationV { file: self.file@, line: self.line }
    }
}

impl FrameLocation {
    /// The place of a function of which nothing is known.
    pub fn unknown() -> (r: Self)
        ensures
            r.deep_view() == unknown_location(),
    {
        Self { file: String::from_str("unknown.rs"), line: 0 }
    }
}

/// The place of a function of which nothing is known.
pub open spec fn unknown_location() -> FrameLocationV {
    FrameLocationV { file: "unknown.rs"@, line: 0 }
}

/// A frame of the stack: the name of the function and its place.
#[derive(Debug, Clone, PartialEq)]
pub struct Frame {
    pub name: String,
    pub location: FrameLocation,
}

/// What a `Frame` holds.
pub struct FrameV {
    pub name: Seq<char>,
    pub location: FrameLocationV,
}

impl DeepView for Frame {
    type V = FrameV;

    open spec fn deep_view(&self) -> FrameV {
        FrameV { name: self.name@, location: self.location.deep_view() }
    }
}

/// What the debugging information says of a function: the name that the
/// linker knows it by, its namespace and its name, and its place.
#[derive(Debug, Clone, PartialEq)]
pub struct DebugFunction {
    pub linkage_name: String,
    pub namespace: Option<String>,
    pub name: Option<String>,
    pub directory: Option<String>,
    pub file: Option<String>,
    pub line: u32,
}

/// What a `DebugFunction` holds.
pub struct DebugFunctionV {
    pub linkage_name: Seq<char>,
    pub namespace: Option<Seq<char>>,
    pub name: Option<Seq<char>>,
    pub directory: Option<Seq<char>>,
    pub file: Option<Seq<char>>,
    pub line: u32,
}

impl DeepView for DebugFunction {
    type V = DebugFunctionV;

    open spec fn deep_view(&self) -> DebugFunctionV {
        DebugFunctionV {
            linkage_name: self.linkage_name@,
            namespace: self.namespace.deep_view(),
            name: self.name.deep_view(),
            directory: self.directory.deep_view(),
            file: self.file.deep_view(),
            line: self.line,
        }
    }
}

/// Why the stack could not be made.
#[derive(Debug, Clone, Copy, PartialEq, Eq, Structural)]
pub enum StackError {
    /// There are no function names to go by.
    MissingNames,
    /// The `name` section could not be decoded.
    Malformed,
    /// The module is not a coredump.
    NotACoredump,
    /// The coredump holds no thread.
    NoThread,
}

/// The name that `rustc_demangle::demangle` makes of `name`.
pub uninterp spec fn demangled(name: Seq<char>) -> Seq<char>;

/// `rustc_demangle::demangle`, then `to_string`: the name as it was
/// written in the source, or the name itself where it is not a mangled one.
#[verifier::external_body]
fn demangle(name: &str) -> (r: String)
    ensures
        r@ == demangled(name@),
{
    rustc_demangle::demangle(name).to_string()
}

/// The name of the function of a frame: the one that `names` has for its
/// index, or a name made of the index.
pub open spec fn linkage_name(funcidx: u32, names: Map<u32, Seq<char>>) -> Seq<char> {
    if names.contains_key(funcidx) {
        names[funcidx]
    } else {
        "<unknown-func"@ + decimal(funcidx as nat) + ">"@
    }
}

/// The position of the last of the first `n` functions whose demangled
/// linkage name is `name`.
pub open spec fn last_demangled(functions: Seq<DebugFunctionV>, name: Seq<char>, n: nat) -> Option<
    int,
>
    decreases n,
{
    if n == 0 || n > functions.len() {
        None
    } else if demangled(functions[n - 1].linkage_name) == name {
        Some(n - 1)
    } else {
        last_demangled(functions, name, (n - 1) as nat)
    }
}

/// The position of the last of the first `n` functions whose linkage name
/// is `name`.
pub open spec fn last_linked(functions: Seq<DebugFunctionV>, name: Seq<char>, n: nat) -> Option<int>
    decreases n,
{
    if n == 0 || n > functions.len() {
        None
    } else if functions[n - 1].linkage_name == name {
        Some(n - 1)
    } else {
        last_linked(functions, name, (n - 1) as nat)
    }
}

/// The function that goes by `name`: the last whose demangled linkage
/// name it is, or else the last whose linkage name it is.
pub open spec fn function_named(functions: Seq<DebugFunctionV>, name: Seq<char>) -> Option<int> {
    match last_demangled(functions, name, functions.len()) {
        Some(k) => Some(k),
        None => last_linked(functions, name, functions.len()),
    }
}

/// The frame of a function that the debugging information knows: its
/// namespace and its name, or the name that the linker knows it by, and
/// its place.
pub open spec fn known_frame(function: DebugFunctionV, linkage_name: Seq<char>) -> FrameV {
    FrameV {
        name: (match function.namespace {
            Some(ns) => ns + "::"@,
            None => Seq::empty(),
        }) + (match function.name {
            Some(name) => name,
            None => linkage_name,
        }),
        location: FrameLocationV {
            file: (match function.directory {
                Some(d) => d,
                None => ""@,
            }) + "/"@ + (match function.file {
                Some(f) => f,
                None => "unknown.rs"@,
            }),
            line: function.line,
        },
    }
}

/// The frame that is shown for `frame`.
pub open spec fn shown_frame(
    frame: StackFrameV,
    names: Map<u32, Seq<char>>,
    functions: Option<Seq<DebugFunctionV>>,
) -> FrameV {
    let name = linkage_name(frame.funcidx, names);
    match functions {
        Some(functions) => match function_named(functions, name) {
            Some(k) => known_frame(functions[k], name),
            None => FrameV { name, location: unknown_location() },
        },
        None => FrameV { name, location: unknown_location() },
    }
}

/// The frames that are shown for the last `n` of `frames`, the last one
/// first.
pub open spec fn shown_frames(
    frames: Seq<StackFrameV>,
    names: Map<u32, Seq<char>>,
    functions: Option<Seq<DebugFunctionV>>,
    n: nat,
) -> Seq<FrameV>
    decreases n,
{
    if n == 0 || n > frames.len() {
        Seq::empty()
    } else {
        shown_frames(frames, names, functions, (n - 1) as nat).push(
            shown_frame(frames[frames.len() - n], names, functions),
        )
    }
}

/// The position of the last of the first `n` of `names` that is `name`.
pub open spec fn last_equal(names: Seq<Seq<char>>, name: Seq<char>, n: nat) -> Option<int>
    decreases n,
{
    if n == 0 || n > names.len() {
        None
    } else if names[n - 1] == name {
        Some(n - 1)
    } else {
        last_equal(names, name, (n - 1) as nat)
    }
}

/// The function that goes by `name`, where `plain` holds the demangled
/// linkage name of each function: the last whose demangled name it is, or
/// else the last whose linkage name it is.
pub open spec fn function_among(
    plain: Seq<Seq<char>>,
    functions: Seq<DebugFunctionV>,
    name: Seq<char>,
) -> Option<int> {
    match last_equal(plain, name, plain.len()) {
        Some(k) => Some(k),
        None => last_linked(functions, name, functions.len()),
    }
}

/// The texts of `names`.
pub open spec fn texts(names: Seq<String>) -> Seq<Seq<char>> {
    names.map_values(|n: String| n@)
}

/// Searches the functions for the one that goes by `name`, given the
/// demangled linkage name of each in `plain`: the last whose demangled name
/// is `name`, or else the last whose linkage name is.
pub fn find_among(plain: &Vec<String>, functions: &Vec<DebugFunction>, name: &str) -> (r: Option<
    usize,
>)
    requires
        plain@.len() == functions@.len(),
    ensures
        match r {
            Some(k) => function_among(texts(plain@), functions.deep_view(), name@) == Some(
                k as int,
            ) && k < functions@.len(),
            None => function_among(texts(plain@), functions.deep_view(), name@) is None,
        },
{
    let ghost v = functions.deep_view();
    let ghost p = texts(plain@);
    let mut n = plain.len();
    while n > 0
        invariant
            n <= plain.len(),
            plain@.len() == functions@.len(),
            p == texts(plain@),
            p.len() == plain@.len(),
            last_equal(p, name@, p.len()) == last_equal(p, name@, n as nat),
        decreases n,
    {
        assert(p[n - 1] == plain@[n - 1]@);
        if same_text(plain[n - 1].as_str(), name) {
            return Some(n - 1);
        }
        n -= 1;
    }
    let mut n = functions.len();
    while n > 0
        invariant
            n <= functions.len(),
            v == functions.deep_view(),
            v.len() == functions@.len(),
            p == texts(plain@),
            last_equal(p, name@, p.len()) is None,
            last_linked(v, name@, v.len()) == last_linked(v, name@, n as nat),
        decreases n,
    {
        assert(v[n - 1] == functions@[n - 1].deep_view());
        if same_text(functions[n - 1].linkage_name.as_str(), name) {
            return Some(n - 1);
        }
        n -= 1;
    }
    None
}

/// Where `plain` holds the demangled linkage name of each function, the
/// last of the first `n` functions that has a demangled name is the last
/// of the first `n` of `plain` that is that name.
pub proof fn lemma_last_equal(
    plain: Seq<Seq<char>>,
    functions: Seq<DebugFunctionV>,
    name: Seq<char>,
    n: nat,
)
    requires
        plain.len() == functions.len(),
        forall|k: int|
            0 <= k < plain.len() ==> #[trigger] plain[k] == demangled(functions[k].linkage_name),
    ensures
        last_equal(plain, name, n) == last_demangled(functions, name, n),
    decreases n,
{
    if n > 0 && n <= plain.len() {
        lemma_last_equal(plain, functions, name, (n - 1) as nat);
    }
}

/// The demangled linkage name of each function.
fn demangled_names(functions: &Vec<DebugFunction>) -> (r: Vec<String>)
    ensures
        r@.len() == functions@.len(),
        forall|k: int|
            0 <= k < r@.len() ==> (#[trigger] r@[k])@ == demangled(functions@[k].linkage_name@),
{
    let mut out: Vec<String> = Vec::new();
    let mut k: usize = 0;
    while k < functions.len()
        invariant
            k <= functions.len(),
            out@.len() == k,
            forall|j: int|
                0 <= j < k ==> (#[trigger] out@[j])@ == demangled(functions@[j].linkage_name@),
        decreases functions.len() - k,
    {
        out.push(demangle(functions[k].linkage_name.as_str()));
        k += 1;
    }
    out
}

fn find_function(functions: &Vec<DebugFunction>, name: &str) -> (r: Option<usize>)
    ensures
        match r {
            Some(k) => function_named(functions.deep_view(), name@) == Some(k as int) && k
                < functions@.len(),
            None => function_named(functions.deep_view(), name@) is None,
        },
{
    let plain = demangled_names(functions);
    proof {
        let v = functions.deep_view();
        let p = texts(plain@);
        assert forall|k: int| 0 <= k < p.len() implies #[trigger] p[k] == demangled(
            v[k].linkage_name,
        ) by {
            assert(p[k] == plain@[k]@);
            assert(v[k] == functions@[k].deep_view());
        }
        lemma_last_equal(p, v, name@, p.len());
    }
    find_among(&plain, functions, name)
}

fn show_frame(
    frame: &StackFrame,
    names: &HashMap<u32, String>,
    functions: Option<&Vec<DebugFunction>>,
) -> (r: Frame)
    ensures
        r.deep_view() == shown_frame(frame.deep_view(), names_view(*names), functions.deep_view()),
{
    broadcast use vstd::std_specs::hash::group_hash_axioms;

    let linkage_name = match names.get(&frame.funcidx) {
        Some(name) => name.clone(),
        None => {
            let mut name = String::from_str("<unknown-func");
            write_decimal(&mut name, frame.funcidx as u64);
            name.append(">");
            name
        },
    };
    assert(linkage_name@ == self::linkage_name(
        frame.funcidx,
        names_view(*names),
    ));
    match functions {
        Some(list) => {
            let functions = list;
            assert(Some(list).deep_view() == Some(functions.deep_view()));
            match find_function(functions, linkage_name.as_str()) {
                Some(k) => {
                    let function = &functions[k];
                    assert(functions.deep_view()[k as int] == function.deep_view());
                    let mut name = String::new();
                    match &function.namespace {
                        Some(ns) => {
                            name.append(ns.as_str());
                            name.append("::");
                        },
                        None => {},
                    }
                    match &function.name {
                        Some(n) => {
                            name.append(n.as_str());
                        },
                        None => {
                            name.append(linkage_name.as_str());
                        },
                    }
                    let mut file = String::new();
                    match &function.directory {
                        Some(d) => {
                            file.append(d.as_str());
                        },
                        None => {
                            file.append("");
                        },
                    }
                    file.append("/");
                    match &function.file {
                        Some(f) => {
                            file.append(f.as_str());
                        },
                        None => {
                            file.append("unknown.rs");
                        },
                    }
                    let r = Frame { name, location: FrameLocation { file, line: function.line } };
                    assert(r.deep_view().name =~= known_frame(
                        function.deep_view(),
                        linkage_name@,
                    ).name);
                    assert(r.deep_view().location.file =~= known_frame(
                        function.deep_view(),
                        linkage_name@,
                    ).location.file);
                    r
                },
                None => {
                    let r = Frame { name: linkage_name, location: FrameLocation::unknown() };
                    assert(r.deep_view() == (FrameV {
                        name: linkage_name@,
                        location: unknown_location(),
                    }));
                    r
                },
            }
        },
        None => {
            let r = Frame { name: linkage_name, location: FrameLocation::unknown() };
            assert(r.deep_view() == (FrameV { name: linkage_name@, location: unknown_location() }));
            r
        },
    }
}

/// A coredump with what is needed to show its stack.
pub struct CoredumpToStack {
    /// The module of the coredump.
    pub coredump: Module,
    /// The names of the functions, by their indices.
    pub func_names: Option<HashMap<u32, String>>,
    /// A module that holds the debugging information.
    pub debug_module: Option<Vec<u8>>,
}

/// The position of the first of `sections[from..]` that is named `name`.
pub open spec fn first_named(sections: Seq<(String, Vec<u8>)>, name: Seq<char>, from: int) -> Option<
    int,
>
    decreases sections.len() - from,
{
    if from < 0 || from >= sections.len() {
        None
    } else if sections[from].0@ == name {
        Some(from)
    } else {
        first_named(sections, name, from + 1)
    }
}

/// The first `n` of `sections` but those named `name`, each as a custom
/// section, one after the other.
pub open spec fn debug_sections(sections: Seq<(String, Vec<u8>)>, n: nat) -> Seq<u8>
    decreases n,
{
    if n == 0 || n > sections.len() {
        Seq::empty()
    } else {
        debug_sections(sections, (n - 1) as nat) + (if sections[n - 1].0@ == "name"@ {
            Seq::empty()
        } else {
            seq![0u8] + sized(encode_name(sections[n - 1].0@) + sections[n - 1].1@)
        })
    }
}

impl CoredumpToStack {
    /// Decodes the coredump.
    pub fn new(coredump_bytes: &[u8]) -> (r: Result<Self, DecodeError>)
        ensures
            match decode_module(coredump_bytes@) {
                Ok(m) => r matches Ok(x) && x.coredump.deep_view() == m && x.func_names is None
                    && x.debug_module is None,
                Err(e) => r matches Err(f) && f == e,
            },
    {
        match parse(coredump_bytes) {
            Ok(coredump) => Ok(Self { coredump, func_names: None, debug_module: None }),
            Err(e) => Err(e),
        }
    }

    /// Takes the function names from the section named `name` among
    /// `sections`, and makes a module of the other sections, which hold the
    /// debugging information.
    pub fn with_debug_sections(self, sections: Vec<(String, Vec<u8>)>) -> (r: Result<
        Self,
        StackError,
    >)
        ensures
            match first_named(sections@, "name"@, 0) {
                None => r matches Err(e) && e == StackError::MissingNames,
                Some(k) => match parse_debug_names(
                    sections@[k].1@,
                    0,
                    sections@[k].1@.len() as int,
                ) {
                    None => r matches Err(e) && e == StackError::Malformed,
                    Some(names) => match names.func_names {
                        None => r matches Err(e) && e == StackError::MissingNames,
                        Some(m) => r matches Ok(x) && x.coredump == self.coredump && (
                        x.func_names matches Some(f) && names_view(f) == m) && (
                        x.debug_module matches Some(d) && d@ == header() + debug_sections(
                            sections@,
                            sections@.len(),
                        )),
                    },
                },
            },
    {
        let mut k: usize = 0;
        while k < sections.len() && !same_text(sections[k].0.as_str(), "name")
            invariant
                k <= sections.len(),
                first_named(sections@, "name"@, 0) == first_named(sections@, "name"@, k as int),
            decreases sections.len() - k,
        {
            k += 1;
        }
        if k >= sections.len() {
            return Err(StackError::MissingNames);
        }
        assert(first_named(sections@, "name"@, 0) == Some(k as int));
        let ghost given = sections@;
        let names = match decode_section_custom_name(InputContext::new(sections[k].1.as_slice())) {
            Some(names) => names,
            None => {
                return Err(StackError::Malformed);
            },
        };
        let func_names = match names.func_names {
            Some(func_names) => func_names,
            None => {
                return Err(StackError::MissingNames);
            },
        };
        let mut debug_module: Vec<u8> = Vec::new();
        write_header(&mut debug_module);
        assert(debug_module@ =~= header());
        let ghost all = sections@;
        let mut stack = reversed(sections);
        let ghost mut done: nat = 0;
        assert(debug_module@ =~= header() + debug_sections(all, 0));
        while stack.len() > 0
            invariant
                done + stack@.len() == all.len(),
                forall|j: int| 0 <= j < stack@.len() ==> #[trigger] stack@[j] == all[all.len() - 1 - j],
                debug_module@ == header() + debug_sections(all, done),
            decreases stack@.len(),
        {
            let (name, bytes) = stack.pop().unwrap();
            assert((name, bytes) == all[done as int]);
            if !same_text(name.as_str(), "name") {
                let section = Section::Custom(Value::new(0), CustomSection::Unknown(name, bytes));
                let r = write_section(&mut debug_module, &section);
                assert(r is Ok);
            }
            proof {
                done = done + 1;
            }
            assert(debug_module@ =~= header() + debug_sections(all, done));
        }
        Ok(Self { coredump: self.coredump, func_names: Some(func_names), debug_module: Some(debug_module) })
    }

    /// Takes the function names from the `name` section of the module
    /// `bytes`, which holds the debugging information.
    pub fn with_debug_module(self, bytes: &[u8]) -> (r: Result<Self, DecodeError>)
        ensures
            match decode_module(bytes@) {
                Ok(m) => r matches Ok(x) && x.coredump == self.coredump && (
                x.debug_module matches Some(d) && d@ == bytes@) && (x.func_names matches Some(f)
                    && names_view(f) == match m.func_names() {
                    Some(names) => names,
                    None => Map::empty(),
                }),
                Err(e) => r matches Err(f) && f == e,
            },
    {
        broadcast use vstd::std_specs::hash::group_hash_axioms;

        let module = match parse(bytes) {
            Ok(module) => WasmModule::new(module),
            Err(e) => {
                return Err(e);
            },
        };
        let func_names = module.func_names();
        Ok(
            Self {
                coredump: self.coredump,
                func_names: Some(func_names),
                debug_module: Some(vstd::slice::slice_to_vec(bytes)),
            },
        )
    }

    /// The stack of the first thread of the coredump, the innermost frame
    /// last: each frame with the name and the place that `functions` has
    /// for its function, where it has any.
    pub fn stack(self, functions: Option<&Vec<DebugFunction>>) -> (r: Result<Vec<Frame>, StackError>)
        ensures
            match self.func_names {
                None => r matches Err(e) && e == StackError::MissingNames,
                Some(names) => match self.coredump.deep_view().coredump() {
                    None => r matches Err(e) && e == StackError::NotACoredump,
                    Some(c) => if c.stacks.len() == 0 {
                        r matches Err(e) && e == StackError::NoThread
                    } else {
                        r matches Ok(frames) && frames.deep_view() == shown_frames(
                            c.stacks[0].frames,
                            names_view(names),
                            functions.deep_view(),
                            c.stacks[0].frames.len(),
                        )
                    },
                },
            },
    {
        let coredump_wasm = WasmModule::new(self.coredump);
        let func_names = match self.func_names {
            Some(names) => names,
            None => {
                return Err(StackError::MissingNames);
            },
        };
        let coredump = match coredump_wasm.get_coredump() {
            Ok(c) => c,
            Err(_) => {
                return Err(StackError::NotACoredump);
            },
        };
        if coredump.stacks.len() == 0 {
            return Err(StackError::NoThread);
        }
        let frames = &coredump.stacks[0].frames;
        let ghost v = frames.deep_view();
        assert(coredump.deep_view().stacks[0] == coredump.stacks@[0].deep_view());
        let mut out: Vec<Frame> = Vec::new();
        let mut n: usize = 0;
        assert(out.deep_view() =~= shown_frames(v, names_view(func_names), functions.deep_view(), 0));
        while n < frames.len()
            invariant
                n <= frames.len(),
                v == frames.deep_view(),
                v.len() == frames@.len(),
                out.deep_view() == shown_frames(
                    v,
                    names_view(func_names),
                    functions.deep_view(),
                    n as nat,
                ),
            decreases frames.len() - n,
        {
            let ghost before = out.deep_view();
            let frame = &frames[frames.len() - 1 - n];
            assert(v[frames.len() - 1 - n] == frame.deep_view());
            let shown = show_frame(frame, &func_names, functions);
            out.push(shown);
            assert(out.deep_view() =~= before.push(shown.deep_view()));
            n += 1;
        }
        Ok(out)
    }
}

} // verus!
