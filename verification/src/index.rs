//! The index spaces of a module, read off its model.
//!
//! Of each standard kind of section the last one in the module is the one
//! that counts: it holds the module's types, imports, functions, globals,
//! exports or bodies. Imported functions come first in the function index
//! space, in the order of their imports; the functions with a body follow.

use crate::ast::{
    CodeLocal, CodeV, CustomSectionV, DataSegmentMode, DataSegmentV, DebugNamesV, ExportDescr,
    ExportV, GlobalV, ImportType, ImportV, Instr, InstrV, Memory, ModuleV, SectionKind, SectionV,
    TypeV, Value,
};
use crate::coredump_types::{CoreStackV, CoredumpV, ProcessInfoV};
use vstd::prelude::*;

verus! {

/// The position of the last of the first `n` sections that is of kind `kind`.
pub open spec fn last_of_kind(s: Seq<Value<SectionV>>, kind: SectionKind, n: nat) -> Option<int>
    decreases n,
{
    if n == 0 || n > s.len() {
        None
    } else if s[n - 1].value.kind() == kind {
        Some(n - 1)
    } else {
        last_of_kind(s, kind, (n - 1) as nat)
    }
}

/// Whether a section is the `name` custom section.
pub open spec fn is_name_section(v: SectionV) -> bool {
    v matches SectionV::Custom(_, CustomSectionV::Name(_))
}

/// The position of the last of the first `n` sections that is a `name`
/// section.
pub open spec fn last_name_section(s: Seq<Value<SectionV>>, n: nat) -> Option<int>
    decreases n,
{
    if n == 0 || n > s.len() {
        None
    } else if is_name_section(s[n - 1].value) {
        Some(n - 1)
    } else {
        last_name_section(s, (n - 1) as nat)
    }
}

/// The type indices of the function imports among the first `n` imports, in
/// order.
pub open spec fn func_import_types(imports: Seq<ImportV>, n: nat) -> Seq<u32>
    decreases n,
{
    if n == 0 || n > imports.len() {
        Seq::empty()
    } else {
        let rest = func_import_types(imports, (n - 1) as nat);
        match imports[n - 1].import_type {
            ImportType::Func(typeidx) => rest.push(typeidx),
            _ => rest,
        }
    }
}

/// The number of global imports among the first `n` imports.
pub open spec fn global_import_count(imports: Seq<ImportV>, n: nat) -> nat
    decreases n,
{
    if n == 0 || n > imports.len() {
        0
    } else {
        global_import_count(imports, (n - 1) as nat) + match imports[n - 1].import_type {
            ImportType::Global(_) => 1nat,
            _ => 0nat,
        }
    }
}

impl ModuleV {
    /// The position of the section of kind `kind` that counts.
    pub open spec fn section(self, kind: SectionKind) -> Option<int> {
        last_of_kind(self.sections, kind, self.sections.len())
    }

    /// The types of the module.
    pub open spec fn types(self) -> Seq<TypeV> {
        match self.section(SectionKind::Type) {
            Some(k) => match self.sections[k].value {
                SectionV::Type(_, v) => v,
                _ => Seq::empty(),
            },
            None => Seq::empty(),
        }
    }

    /// The imports of the module.
    pub open spec fn imports(self) -> Seq<ImportV> {
        match self.section(SectionKind::Import) {
            Some(k) => match self.sections[k].value {
                SectionV::Import(_, v) => v,
                _ => Seq::empty(),
            },
            None => Seq::empty(),
        }
    }

    /// The type index of each function that has a body, in order.
    pub open spec fn funcs(self) -> Seq<u32> {
        match self.section(SectionKind::Func) {
            Some(k) => match self.sections[k].value {
                SectionV::Func(_, v) => v,
                _ => Seq::empty(),
            },
            None => Seq::empty(),
        }
    }

    /// The bodies of the module's functions, in order.
    pub open spec fn codes(self) -> Seq<CodeV> {
        match self.section(SectionKind::Code) {
            Some(k) => match self.sections[k].value {
                SectionV::Code(_, v) => v.value,
                _ => Seq::empty(),
            },
            None => Seq::empty(),
        }
    }

    /// The globals that the module defines.
    pub open spec fn globals(self) -> Seq<GlobalV> {
        match self.section(SectionKind::Global) {
            Some(k) => match self.sections[k].value {
                SectionV::Global(_, v) => v,
                _ => Seq::empty(),
            },
            None => Seq::empty(),
        }
    }

    /// The exports of the module.
    pub open spec fn exports(self) -> Seq<ExportV> {
        match self.section(SectionKind::Export) {
            Some(k) => match self.sections[k].value {
                SectionV::Export(_, v) => v,
                _ => Seq::empty(),
            },
            None => Seq::empty(),
        }
    }

    /// The type indices of the imported functions, in order.
    pub open spec fn imported_func_types(self) -> Seq<u32> {
        func_import_types(self.imports(), self.imports().len())
    }

    /// The number of imported functions: the first function index that
    /// belongs to a function with a body.
    pub open spec fn func_import_count(self) -> nat {
        self.imported_func_types().len()
    }

    /// The number of imported globals.
    pub open spec fn global_import_count(self) -> nat {
        global_import_count(self.imports(), self.imports().len())
    }

    /// The type index of each function of the function index space.
    pub open spec fn func_types(self) -> Seq<u32> {
        self.imported_func_types() + self.funcs()
    }

    /// Whether `funcidx` is the index of an imported function.
    pub open spec fn is_imported(self, funcidx: int) -> bool {
        0 <= funcidx < self.func_import_count()
    }

    /// Whether `funcidx` is the index of a function with a body.
    pub open spec fn has_code(self, funcidx: int) -> bool {
        self.func_import_count() <= funcidx < self.func_import_count() + self.codes().len()
    }

    /// The body of the function `funcidx`.
    pub open spec fn code(self, funcidx: int) -> CodeV {
        self.codes()[funcidx - self.func_import_count()]
    }

    /// The function names of the `name` section that counts, if it has any.
    pub open spec fn func_names(self) -> Option<Map<u32, Seq<char>>> {
        match last_name_section(self.sections, self.sections.len()) {
            Some(k) => match self.sections[k].value {
                SectionV::Custom(_, CustomSectionV::Name(names)) => names.func_names,
                _ => None,
            },
            None => None,
        }
    }

    /// The module with the contents of section `k` replaced.
    pub open spec fn with_section(self, k: int, v: SectionV) -> ModuleV {
        ModuleV {
            sections: self.sections.update(
                k,
                Value {
                    value: v,
                    start_offset: self.sections[k].start_offset,
                    end_offset: self.sections[k].end_offset,
                },
            ),
        }
    }
}

/// One more than the position of the last of the first `n` sections whose
/// place in the order is no later than `pos`, or zero where there is none:
/// where a section of place `pos` is put.
pub open spec fn insert_position(s: Seq<Value<SectionV>>, pos: usize, n: nat) -> int
    decreases n,
{
    if n == 0 || n > s.len() {
        0
    } else if s[n - 1].value.pos() <= pos {
        n as int
    } else {
        insert_position(s, pos, (n - 1) as nat)
    }
}

/// Whether a section is the custom section that `name` names: one of
/// unknown kind with that name, or the `name` section where `name` is
/// `"name"`.
pub open spec fn names_custom(v: SectionV, name: Seq<char>) -> bool {
    match v {
        SectionV::Custom(_, CustomSectionV::Unknown(n, _)) => n == name,
        SectionV::Custom(_, CustomSectionV::Name(_)) => name == "name"@,
        _ => false,
    }
}

/// The position of the last of the first `n` sections that `name` names.
pub open spec fn last_custom(s: Seq<Value<SectionV>>, name: Seq<char>, n: nat) -> Option<int>
    decreases n,
{
    if n == 0 || n > s.len() {
        None
    } else if names_custom(s[n - 1].value, name) {
        Some(n - 1)
    } else {
        last_custom(s, name, (n - 1) as nat)
    }
}

/// The bytes of the first custom section of unknown kind named `name` among
/// `s[from..]`.
pub open spec fn first_custom_bytes(s: Seq<Value<SectionV>>, name: Seq<char>, from: int) -> Option<
    Seq<u8>,
>
    decreases s.len() - from,
{
    if from < 0 || from >= s.len() {
        None
    } else {
        match s[from].value {
            SectionV::Custom(_, CustomSectionV::Unknown(n, bytes)) => if n == name {
                Some(bytes)
            } else {
                first_custom_bytes(s, name, from + 1)
            },
            _ => first_custom_bytes(s, name, from + 1),
        }
    }
}

/// The contents of the custom sections among the first `n` sections, in
/// order.
pub open spec fn custom_sections(s: Seq<Value<SectionV>>, n: nat) -> Seq<CustomSectionV>
    decreases n,
{
    if n == 0 || n > s.len() {
        Seq::empty()
    } else {
        let rest = custom_sections(s, (n - 1) as nat);
        match s[n - 1].value {
            SectionV::Custom(_, c) => rest.push(c),
            _ => rest,
        }
    }
}

/// The id of the last build-id section among the first `n` sections.
pub open spec fn last_build_id(s: Seq<Value<SectionV>>, n: nat) -> Option<Seq<u8>>
    decreases n,
{
    if n == 0 || n > s.len() {
        None
    } else {
        match s[n - 1].value {
            SectionV::Custom(_, CustomSectionV::BuildId(id)) => Some(id),
            _ => last_build_id(s, (n - 1) as nat),
        }
    }
}

/// The position of the first of `imports[from..]` whose name is `name`.
pub open spec fn first_import_named(imports: Seq<ImportV>, name: Seq<char>, from: int) -> Option<
    int,
>
    decreases imports.len() - from,
{
    if from < 0 || from >= imports.len() {
        None
    } else if imports[from].name == name {
        Some(from)
    } else {
        first_import_named(imports, name, from + 1)
    }
}

/// The position of the first of `exports[from..]` whose name is `name`.
pub open spec fn first_export_named(exports: Seq<ExportV>, name: Seq<char>, from: int) -> Option<
    int,
>
    decreases exports.len() - from,
{
    if from < 0 || from >= exports.len() {
        None
    } else if exports[from].name == name {
        Some(from)
    } else {
        first_export_named(exports, name, from + 1)
    }
}

/// The expression `i32.const v; end` as it is built in memory.
pub open spec fn const_expr(v: i64) -> Value<Seq<Value<InstrV>>> {
    Value {
        value: seq![
            Value { value: InstrV::Leaf(Instr::i32_const(v)), start_offset: 0, end_offset: 0 },
            Value { value: InstrV::Leaf(Instr::end), start_offset: 0, end_offset: 0 },
        ],
        start_offset: 0,
        end_offset: 0,
    }
}

impl ModuleV {
    /// The module with `t` as its last type. A module without a type section
    /// is left as it is.
    pub open spec fn add_type(self, t: TypeV) -> ModuleV {
        match self.section(SectionKind::Type) {
            Some(k) => match self.sections[k].value {
                SectionV::Type(size, v) => self.with_section(k, SectionV::Type(size, v.push(t))),
                _ => self,
            },
            None => self,
        }
    }

    /// The module with `code` as its last body.
    pub open spec fn add_code(self, code: CodeV) -> ModuleV {
        match self.section(SectionKind::Code) {
            Some(k) => match self.sections[k].value {
                SectionV::Code(size, v) => self.with_section(
                    k,
                    SectionV::Code(
                        size,
                        Value {
                            value: v.value.push(code),
                            start_offset: v.start_offset,
                            end_offset: v.end_offset,
                        },
                    ),
                ),
                _ => self,
            },
            None => self,
        }
    }

    /// The module with `typeidx` as the type of its last function.
    pub open spec fn add_func(self, typeidx: u32) -> ModuleV {
        match self.section(SectionKind::Func) {
            Some(k) => match self.sections[k].value {
                SectionV::Func(size, v) => self.with_section(k, SectionV::Func(size, v.push(typeidx))),
                _ => self,
            },
            None => self,
        }
    }

    /// The module with one more function: `code` is its last body, `typeidx`
    /// the type of its last function. A section that is missing stays so.
    pub open spec fn add_function(self, code: CodeV, typeidx: u32) -> ModuleV {
        self.add_code(code).add_func(typeidx)
    }

    /// The module with `local` as the last run of locals of the function
    /// `funcidx`, where it has a body.
    pub open spec fn add_func_local(self, funcidx: int, local: CodeLocal) -> ModuleV {
        if self.has_code(funcidx) {
            let k = self.section(SectionKind::Code).unwrap();
            let i = funcidx - self.func_import_count();
            match self.sections[k].value {
                SectionV::Code(size, v) => self.with_section(
                    k,
                    SectionV::Code(
                        size,
                        Value {
                            value: v.value.update(
                                i,
                                CodeV {
                                    size: v.value[i].size,
                                    locals: v.value[i].locals.push(local),
                                    body: v.value[i].body,
                                },
                            ),
                            start_offset: v.start_offset,
                            end_offset: v.end_offset,
                        },
                    ),
                ),
                _ => self,
            }
        } else {
            self
        }
    }

    /// The module with the section `v` put in its place among the others:
    /// behind the last section whose place is no later than its own. The
    /// sections that are there keep their places, also where they are out
    /// of order: a section of a kind that is not known here has a place in
    /// the module that only its writer knew, and a module that was read is
    /// written with its sections in the order in which they were read.
    pub open spec fn add_section(self, v: SectionV) -> ModuleV {
        ModuleV {
            sections: self.sections.insert(
                insert_position(self.sections, v.pos(), self.sections.len()),
                Value { value: v, start_offset: 0, end_offset: 0 },
            ),
        }
    }

    /// The module with `g` as its last global, in a global section of its own
    /// where the module had none.
    pub open spec fn add_global(self, g: GlobalV) -> ModuleV {
        match self.section(SectionKind::Global) {
            Some(k) => match self.sections[k].value {
                SectionV::Global(size, v) => self.with_section(k, SectionV::Global(size, v.push(g))),
                _ => self,
            },
            None => self.add_section(
                SectionV::Global(Value { value: 0, start_offset: 0, end_offset: 0 }, seq![g]),
            ),
        }
    }

    /// The module with the function `funcidx` exported as `name`.
    pub open spec fn add_export_func(self, name: Seq<char>, funcidx: u32) -> ModuleV {
        match self.section(SectionKind::Export) {
            Some(k) => match self.sections[k].value {
                SectionV::Export(size, v) => self.with_section(
                    k,
                    SectionV::Export(size, v.push(ExportV { name, descr: ExportDescr::Func(funcidx) })),
                ),
                _ => self,
            },
            None => self,
        }
    }

    /// The module with an active data segment of `bytes` at `offset` as its
    /// last segment. A module without a data section is left as it is.
    pub open spec fn add_data(self, offset: u32, bytes: Seq<u8>) -> ModuleV {
        match self.section(SectionKind::Data) {
            Some(k) => match self.sections[k].value {
                SectionV::Data(size, v) => self.with_section(
                    k,
                    SectionV::Data(
                        size,
                        v.push(
                            DataSegmentV {
                                offset: Some(const_expr(offset as i64)),
                                bytes,
                                mode: DataSegmentMode::Active,
                            },
                        ),
                    ),
                ),
                _ => self,
            },
            None => self,
        }
    }

    /// The module with `name` as the name of the function `funcidx`, where
    /// its `name` section holds function names. Else the module as it is.
    pub open spec fn add_func_name(self, funcidx: u32, name: Seq<char>) -> ModuleV {
        match last_name_section(self.sections, self.sections.len()) {
            Some(k) => match self.sections[k].value {
                SectionV::Custom(size, CustomSectionV::Name(names)) => match names.func_names {
                    Some(m) => self.with_section(
                        k,
                        SectionV::Custom(
                            size,
                            CustomSectionV::Name(
                                DebugNamesV {
                                    module: names.module,
                                    func_names: Some(m.insert(funcidx, name)),
                                    func_local_names: names.func_local_names,
                                },
                            ),
                        ),
                    ),
                    None => self,
                },
                _ => self,
            },
            None => self,
        }
    }

    /// The module without the last custom section that `name` names.
    pub open spec fn remove_custom_section(self, name: Seq<char>) -> ModuleV {
        match last_custom(self.sections, name, self.sections.len()) {
            Some(k) => ModuleV { sections: self.sections.remove(k) },
            None => self,
        }
    }
}

/// The memory image that a data section stands for: the bytes of its first
/// segment behind as many zero bytes as its offset says. `None` where the
/// section has no segment, or the first one no constant offset that is an
/// address.
pub open spec fn data_image(segments: Seq<DataSegmentV>) -> Option<Seq<u8>> {
    if segments.len() == 0 {
        None
    } else {
        match segments[0].const_offset() {
            Some(offset) => if 0 <= offset <= usize::MAX {
                Some(Seq::new(offset as nat, |i: int| 0u8) + segments[0].bytes)
            } else {
                None
            },
            None => None,
        }
    }
}

/// The limits of the first `n` of `memories`.
pub open spec fn memory_limits(memories: Seq<Memory>, n: nat) -> Seq<(u32, Option<u32>)>
    decreases n,
{
    if n == 0 || n > memories.len() {
        Seq::empty()
    } else {
        memory_limits(memories, (n - 1) as nat).push(
            (memories[n - 1].min.value, memories[n - 1].max),
        )
    }
}

/// What was gathered of a coredump from the sections read so far.
pub struct CoredumpScan {
    pub process_info: Option<ProcessInfoV>,
    pub stacks: Seq<CoreStackV>,
    pub memory: Seq<(u32, Option<u32>)>,
    pub data: Seq<u8>,
}

/// What the first `n` sections hold of a coredump: the process of the last
/// `core` section, the stack of every `corestack` section, the limits of
/// every memory, the image of the last data section. `None` where a data
/// section has no image.
pub open spec fn scan_coredump(s: Seq<Value<SectionV>>, n: nat) -> Option<CoredumpScan>
    decreases n,
{
    if n == 0 || n > s.len() {
        Some(
            CoredumpScan {
                process_info: None,
                stacks: Seq::empty(),
                memory: Seq::empty(),
                data: Seq::empty(),
            },
        )
    } else {
        match scan_coredump(s, (n - 1) as nat) {
            Some(acc) => match s[n - 1].value {
                SectionV::Data(_, segments) => match data_image(segments) {
                    Some(data) => Some(CoredumpScan { data, ..acc }),
                    None => None,
                },
                SectionV::Memory(_, memories) => Some(
                    CoredumpScan {
                        memory: acc.memory + memory_limits(memories, memories.len()),
                        ..acc
                    },
                ),
                SectionV::Custom(_, CustomSectionV::CoredumpCore(info)) => Some(
                    CoredumpScan { process_info: Some(info), ..acc },
                ),
                SectionV::Custom(_, CustomSectionV::CoredumpCoreStack(stack)) => Some(
                    CoredumpScan { stacks: acc.stacks.push(stack), ..acc },
                ),
                _ => Some(acc),
            },
            None => None,
        }
    }
}

impl ModuleV {
    /// The coredump that the module holds, if it holds one: it must have a
    /// `core` section, and an image for each of its data sections.
    pub open spec fn coredump(self) -> Option<CoredumpV> {
        match scan_coredump(self.sections, self.sections.len()) {
            Some(scan) => match scan.process_info {
                Some(process_info) => Some(
                    CoredumpV {
                        process_info,
                        stacks: scan.stacks,
                        memory: scan.memory,
                        data: scan.data,
                    },
                ),
                None => None,
            },
            None => None,
        }
    }
}

impl ModuleV {
    /// The indices of the functions with a body, in order, as far as they
    /// are 32-bit numbers.
    pub open spec fn function_indices(self) -> Seq<u32> {
        Seq::new(
            if self.func_import_count() + self.codes().len() <= 0x1_0000_0000 {
                self.codes().len()
            } else if self.func_import_count() <= 0x1_0000_0000 {
                (0x1_0000_0000 - self.func_import_count()) as nat
            } else {
                0
            },
            |k: int| (self.func_import_count() + k) as u32,
        )
    }
}

impl ModuleV {
    /// The module with `code` for the body of the function `funcidx`, where
    /// it has a body.
    pub open spec fn with_code(self, funcidx: int, code: CodeV) -> ModuleV {
        if self.has_code(funcidx) {
            let k = self.section(SectionKind::Code).unwrap();
            let i = funcidx - self.func_import_count();
            match self.sections[k].value {
                SectionV::Code(size, v) => self.with_section(
                    k,
                    SectionV::Code(
                        size,
                        Value {
                            value: v.value.update(i, code),
                            start_offset: v.start_offset,
                            end_offset: v.end_offset,
                        },
                    ),
                ),
                _ => self,
            }
        } else {
            self
        }
    }

    /// The module with `nodes` for the instructions of the function
    /// `funcidx`, where it has a body.
    pub open spec fn with_body(self, funcidx: int, nodes: Seq<Value<InstrV>>) -> ModuleV {
        self.with_code(
            funcidx,
            CodeV {
                size: self.code(funcidx).size,
                locals: self.code(funcidx).locals,
                body: Value {
                    value: nodes,
                    start_offset: self.code(funcidx).body.start_offset,
                    end_offset: self.code(funcidx).body.end_offset,
                },
            },
        )
    }
}

impl ModuleV {
    /// Whether the function `funcidx` has a type in the module.
    pub open spec fn has_type(self, funcidx: int) -> bool {
        0 <= funcidx < self.func_types().len() && self.func_types()[funcidx] < self.types().len()
    }

    /// The type of the function `funcidx`.
    pub open spec fn type_of(self, funcidx: int) -> TypeV {
        self.types()[self.func_types()[funcidx] as int]
    }

    /// Whether an export of the module is the function `funcidx`.
    pub open spec fn is_exported(self, funcidx: u32) -> bool {
        exists|k: int|
            0 <= k < self.exports().len() && (#[trigger] self.exports()[k]).descr
                == ExportDescr::Func(funcidx)
    }
}

/// A position found by `last_of_kind` holds a section of that kind, and no
/// later one among the first `n` does.
pub proof fn lemma_last_of_kind(s: Seq<Value<SectionV>>, kind: SectionKind, n: nat)
    requires
        n <= s.len(),
    ensures
        match last_of_kind(s, kind, n) {
            Some(k) => 0 <= k < n && s[k].value.kind() == kind && forall|j: int|
                k < j < n ==> (#[trigger] s[j]).value.kind() != kind,
            None => forall|j: int| 0 <= j < n ==> (#[trigger] s[j]).value.kind() != kind,
        },
    decreases n,
{
    if n > 0 && s[n - 1].value.kind() != kind {
        lemma_last_of_kind(s, kind, (n - 1) as nat);
    }
}

/// Replacing the contents of a section by contents of the same kind leaves
/// every position found by `last_of_kind` as it was.
pub proof fn lemma_last_of_kind_update(
    s: Seq<Value<SectionV>>,
    k: int,
    v: Value<SectionV>,
    kind: SectionKind,
    n: nat,
)
    requires
        0 <= k < s.len(),
        n <= s.len(),
        v.value.kind() == s[k].value.kind(),
    ensures
        last_of_kind(s.update(k, v), kind, n) == last_of_kind(s, kind, n),
    decreases n,
{
    if n > 0 {
        lemma_last_of_kind_update(s, k, v, kind, (n - 1) as nat);
    }
}

/// Replacing the contents of section `k` by contents of the same kind
/// changes nothing else: every kind has its section where it was, and what
/// the module holds of any other kind is as before.
pub proof fn lemma_with_section(m: ModuleV, k: int, v: SectionV)
    requires
        0 <= k < m.sections.len(),
        v.kind() == m.sections[k].value.kind(),
    ensures
        forall|kind: SectionKind| #[trigger] m.with_section(k, v).section(kind) == m.section(kind),
        m.with_section(k, v).sections.len() == m.sections.len(),
        m.with_section(k, v).sections[k].value == v,
        forall|j: int|
            0 <= j < m.sections.len() && j != k ==> #[trigger] m.with_section(k, v).sections[j]
                == m.sections[j],
        v.kind() != SectionKind::Type ==> m.with_section(k, v).types() == m.types(),
        v.kind() != SectionKind::Import ==> m.with_section(k, v).imports() == m.imports(),
        v.kind() != SectionKind::Func ==> m.with_section(k, v).funcs() == m.funcs(),
        v.kind() != SectionKind::Code ==> m.with_section(k, v).codes() == m.codes(),
        v.kind() != SectionKind::Global ==> m.with_section(k, v).globals() == m.globals(),
        v.kind() != SectionKind::Export ==> m.with_section(k, v).exports() == m.exports(),
        m.section(v.kind()) == Some(k) ==> m.with_section(k, v).section(v.kind()) == Some(k),
{
    let n = m.with_section(k, v);
    let node = Value {
        value: v,
        start_offset: m.sections[k].start_offset,
        end_offset: m.sections[k].end_offset,
    };
    assert forall|kind: SectionKind| #[trigger] n.section(kind) == m.section(kind) by {
        lemma_last_of_kind_update(m.sections, k, node, kind, m.sections.len());
    }
    lemma_last_of_kind(m.sections, SectionKind::Type, m.sections.len());
    lemma_last_of_kind(m.sections, SectionKind::Import, m.sections.len());
    lemma_last_of_kind(m.sections, SectionKind::Func, m.sections.len());
    lemma_last_of_kind(m.sections, SectionKind::Code, m.sections.len());
    lemma_last_of_kind(m.sections, SectionKind::Global, m.sections.len());
    lemma_last_of_kind(m.sections, SectionKind::Export, m.sections.len());
    assert(n.section(SectionKind::Type) == m.section(SectionKind::Type));
    assert(n.section(SectionKind::Import) == m.section(SectionKind::Import));
    assert(n.section(SectionKind::Func) == m.section(SectionKind::Func));
    assert(n.section(SectionKind::Code) == m.section(SectionKind::Code));
    assert(n.section(SectionKind::Global) == m.section(SectionKind::Global));
    assert(n.section(SectionKind::Export) == m.section(SectionKind::Export));
}

impl ModuleV {
    /// The body and the type of the function that is exported as `name`,
    /// if there is one and the module holds both.
    pub open spec fn export_func(self, name: Seq<char>) -> Option<(CodeV, TypeV)> {
        match first_export_named(self.exports(), name, 0) {
            Some(k) => match self.exports()[k].descr {
                ExportDescr::Func(f) => if self.has_code(f as int) && self.has_type(f as int) {
                    Some((self.code(f as int), self.type_of(f as int)))
                } else {
                    None
                },
                _ => None,
            },
            None => None,
        }
    }
}

/// Of two bodies put in the place of a function's body one after the other,
/// the second stays.
pub proof fn lemma_with_code_twice(m: ModuleV, funcidx: int, a: CodeV, b: CodeV)
    ensures
        m.with_code(funcidx, a).with_code(funcidx, b) == m.with_code(funcidx, b),
{
    if m.has_code(funcidx) {
        lemma_with_code(m, funcidx, a);
        lemma_last_of_kind(m.sections, SectionKind::Code, m.sections.len());
        let k = m.section(SectionKind::Code).unwrap();
        let i = funcidx - m.func_import_count();
        match m.sections[k].value {
            SectionV::Code(size, v) => {
                let first = SectionV::Code(
                    size,
                    Value {
                        value: v.value.update(i, a),
                        start_offset: v.start_offset,
                        end_offset: v.end_offset,
                    },
                );
                lemma_with_section(m, k, first);
                let n = m.with_code(funcidx, a);
                assert(n.section(SectionKind::Code) == Some(k));
                assert(v.value.update(i, a).update(i, b) =~= v.value.update(i, b));
                assert(n.with_code(funcidx, b).sections =~= m.with_code(funcidx, b).sections);
            },
            _ => {},
        }
    } else {
        lemma_with_code(m, funcidx, a);
    }
}

/// Putting another body in the place of a function's body leaves the
/// imports, the types and the number of bodies as they were.
pub proof fn lemma_with_code(m: ModuleV, funcidx: int, code: CodeV)
    ensures
        m.with_code(funcidx, code).imports() == m.imports(),
        m.with_code(funcidx, code).types() == m.types(),
        m.with_code(funcidx, code).funcs() == m.funcs(),
        m.with_code(funcidx, code).func_import_count() == m.func_import_count(),
        m.with_code(funcidx, code).codes().len() == m.codes().len(),
        m.has_code(funcidx) ==> m.with_code(funcidx, code).codes() == m.codes().update(
            funcidx - m.func_import_count(),
            code,
        ),
        m.with_code(funcidx, code).sections.len() == m.sections.len(),
        forall|f: int| m.with_code(funcidx, code).has_code(f) == m.has_code(f),
{
    if m.has_code(funcidx) {
        lemma_last_of_kind(m.sections, SectionKind::Code, m.sections.len());
        let k = m.section(SectionKind::Code).unwrap();
        let i = funcidx - m.func_import_count();
        match m.sections[k].value {
            SectionV::Code(size, v) => {
                let new = SectionV::Code(
                    size,
                    Value {
                        value: v.value.update(i, code),
                        start_offset: v.start_offset,
                        end_offset: v.end_offset,
                    },
                );
                lemma_with_section(m, k, new);
            },
            _ => {},
        }
    }
}

} // verus!
