//! The module facade, which answers questions about a module and makes the
//! edits that keep its index spaces in order, and the traversal that hands
//! every part of a module to a visitor and applies the edits it asks for.

use crate::ast::{
    Code, CodeLocal, CodeV, CustomSection, CustomSectionV, DataSegment, DataSegmentMode, Element,
    Export, ExportDescr, Global, Import, ImportType, Instr, InstrV, Module, ModuleV, Section,
    SectionKind, SectionV, Table, Type, Value, lemma_expr_view, lemma_instr_view, names_view,
};
use crate::coredump_types::{CoreStack, CoreStackV, Coredump, ProcessInfo};
use crate::edits::{
    Added, FunctionVisit, InstrEdit, Visit, after_functions, chained, fits, left_by,
    lemma_after_functions, lemma_chained_push, lemma_left_by_last, lemma_left_by_one,
    lemma_left_by_push, lemma_rewrite_prefix_push, module_with_added, nested_body, rewrite_body,
    rewrite_node, rewrite_prefix, with_added, with_body,
};
use crate::index::{
    const_expr, custom_sections, data_image, first_custom_bytes, first_export_named,
    first_import_named, func_import_types, global_import_count, insert_position, is_name_section,
    last_build_id, last_custom, last_name_section, last_of_kind, lemma_with_code, memory_limits,
    scan_coredump,
};
use std::collections::HashMap;
use vstd::prelude::*;
use vstd::slice::slice_to_vec;
use vstd::string::StringExecFns;

verus! {

/// Why the facade could not do what was asked.
#[derive(Debug, Clone, Copy, PartialEq, Eq, Structural)]
pub enum FacadeError {
    /// What was asked for is not in the module.
    NotFound,
    /// The export that was asked for is not a function.
    TypeMismatch,
    /// The operation is not offered.
    Unsupported,
    /// The module lacks what a coredump must hold.
    Malformed,
}

/// Whether two strings hold the same text.
pub fn same_text(a: &str, b: &str) -> (r: bool)
    ensures
        r == (a@ == b@),
{
    String::from_str(a) == String::from_str(b)
}

/// A module with the questions and the edits that pass through its index
/// spaces.
pub struct WasmModule {
    pub inner: Module,
}

impl View for WasmModule {
    type V = ModuleV;

    open spec fn view(&self) -> ModuleV {
        self.inner.deep_view()
    }
}

impl WasmModule {
    /// The facade of `inner`.
    pub fn new(inner: Module) -> (r: Self)
        ensures
            r.inner == inner,
    {
        Self { inner }
    }

    /// The module that the facade holds.
    pub fn into_inner(self) -> (r: Module)
        ensures
            r == self.inner,
    {
        self.inner
    }

    /// The position of the section of kind `kind` that counts.
    pub fn last_section(&self, kind: SectionKind) -> (r: Option<usize>)
        ensures
            match r {
                Some(k) => self@.section(kind) == Some(k as int) && k < self.inner.sections@.len()
                    && self.inner.sections@[k as int].value.deep_view().kind() == kind
                    && self@.sections[k as int].value
                    == self.inner.sections@[k as int].value.deep_view(),
                None => self@.section(kind) is None,
            },
    {
        let ghost s = self@.sections;
        let mut n = self.inner.sections.len();
        while n > 0
            invariant
                n <= self.inner.sections@.len(),
                s == self@.sections,
                s.len() == self.inner.sections@.len(),
                last_of_kind(s, kind, s.len()) == last_of_kind(s, kind, n as nat),
            decreases n,
        {
            assert(s[n - 1].value == self.inner.sections@[n - 1].value.deep_view());
            if self.inner.sections[n - 1].value.kind() == kind {
                return Some(n - 1);
            }
            n -= 1;
        }
        None
    }

    pub(crate) fn type_section(&self) -> (r: &[Type])
        ensures
            r.deep_view() == self@.types(),
    {
        match self.last_section(SectionKind::Type) {
            Some(k) => match &self.inner.sections[k].value {
                Section::Type(_, content) => {
                    let r = content.as_slice();
                    assert(r.deep_view() =~= content.deep_view());
                    r
                },
                _ => {
                    assert(false);
                    &[]
                },
            },
            None => {
                let r: &[Type] = &[];
                assert(r.deep_view() =~= self@.types());
                r
            },
        }
    }

    /// The imports of the module.
    pub fn imports(&self) -> (r: &[Import])
        ensures
            r.deep_view() == self@.imports(),
    {
        match self.last_section(SectionKind::Import) {
            Some(k) => match &self.inner.sections[k].value {
                Section::Import(_, content) => {
                    let r = content.as_slice();
                    assert(r.deep_view() =~= content.deep_view());
                    r
                },
                _ => {
                    assert(false);
                    &[]
                },
            },
            None => {
                let r: &[Import] = &[];
                assert(r.deep_view() =~= self@.imports());
                r
            },
        }
    }

    /// The globals that the module defines.
    pub fn globals(&self) -> (r: &[Global])
        ensures
            r.deep_view() == self@.globals(),
    {
        match self.last_section(SectionKind::Global) {
            Some(k) => match &self.inner.sections[k].value {
                Section::Global(_, content) => {
                    let r = content.as_slice();
                    assert(r.deep_view() =~= content.deep_view());
                    r
                },
                _ => {
                    assert(false);
                    &[]
                },
            },
            None => {
                let r: &[Global] = &[];
                assert(r.deep_view() =~= self@.globals());
                r
            },
        }
    }

    fn exports(&self) -> (r: &[Export])
        ensures
            r.deep_view() == self@.exports(),
    {
        match self.last_section(SectionKind::Export) {
            Some(k) => match &self.inner.sections[k].value {
                Section::Export(_, content) => {
                    let r = content.as_slice();
                    assert(r.deep_view() =~= content.deep_view());
                    r
                },
                _ => {
                    assert(false);
                    &[]
                },
            },
            None => {
                let r: &[Export] = &[];
                assert(r.deep_view() =~= self@.exports());
                r
            },
        }
    }

    fn codes(&self) -> (r: &[Code])
        ensures
            r.deep_view() == self@.codes(),
    {
        match self.last_section(SectionKind::Code) {
            Some(k) => match &self.inner.sections[k].value {
                Section::Code(_, content) => {
                    let r = content.value.as_slice();
                    assert(r.deep_view() =~= content.value.deep_view());
                    r
                },
                _ => {
                    assert(false);
                    &[]
                },
            },
            None => {
                let r: &[Code] = &[];
                assert(r.deep_view() =~= self@.codes());
                r
            },
        }
    }

    fn funcs(&self) -> (r: &[u32])
        ensures
            r@ == self@.funcs(),
    {
        match self.last_section(SectionKind::Func) {
            Some(k) => match &self.inner.sections[k].value {
                Section::Func(_, content) => {
                    let r = content.as_slice();
                    assert(r@ == content@);
                    r
                },
                _ => {
                    assert(false);
                    &[]
                },
            },
            None => {
                let r: &[u32] = &[];
                assert(r@ =~= self@.funcs());
                r
            },
        }
    }

    /// The type indices of the imported functions, in order.
    pub fn imported_func_types(&self) -> (r: Vec<u32>)
        ensures
            r@ == self@.imported_func_types(),
    {
        let imports = self.imports();
        let ghost v = self@.imports();
        let mut r: Vec<u32> = Vec::new();
        let mut k: usize = 0;
        while k < imports.len()
            invariant
                k <= imports.len(),
                v == imports.deep_view(),
                v.len() == imports@.len(),
                r@ == func_import_types(v, k as nat),
            decreases imports.len() - k,
        {
            assert(v[k as int] == imports@[k as int].deep_view());
            match imports[k].import_type {
                ImportType::Func(typeidx) => {
                    r.push(typeidx);
                },
                _ => {},
            }
            k += 1;
        }
        r
    }

    /// The number of imported globals.
    pub fn global_import_count(&self) -> (r: usize)
        ensures
            r == self@.global_import_count(),
    {
        let imports = self.imports();
        let ghost v = self@.imports();
        let mut r: usize = 0;
        let mut k: usize = 0;
        while k < imports.len()
            invariant
                k <= imports.len(),
                v == imports.deep_view(),
                v.len() == imports@.len(),
                r == global_import_count(v, k as nat),
                r <= k,
            decreases imports.len() - k,
        {
            assert(v[k as int] == imports@[k as int].deep_view());
            match imports[k].import_type {
                ImportType::Global(_) => {
                    r += 1;
                },
                _ => {},
            }
            k += 1;
        }
        r
    }

    /// Whether `funcidx` is the index of an imported function.
    pub fn is_func_imported(&self, funcidx: u32) -> (r: bool)
        ensures
            r == self@.is_imported(funcidx as int),
    {
        (funcidx as usize) < self.imported_func_types().len()
    }

    /// The type with index `typeidx`, if there is one.
    pub fn get_type(&self, typeidx: u32) -> (r: Option<Type>)
        ensures
            match r {
                Some(t) => typeidx < self@.types().len() && t.deep_view()
                    == self@.types()[typeidx as int],
                None => typeidx >= self@.types().len(),
            },
    {
        let types = self.type_section();
        if (typeidx as usize) < types.len() {
            assert(types.deep_view()[typeidx as int] == types@[typeidx as int].deep_view());
            Some(types[typeidx as usize].clone())
        } else {
            None
        }
    }

    /// The index of the type of the function `funcidx`, imported or not.
    pub fn get_func_typeidx(&self, funcidx: u32) -> (r: u32)
        requires
            funcidx < self@.func_types().len(),
        ensures
            r == self@.func_types()[funcidx as int],
    {
        let imported = self.imported_func_types();
        if (funcidx as usize) < imported.len() {
            imported[funcidx as usize]
        } else {
            let funcs = self.funcs();
            funcs[funcidx as usize - imported.len()]
        }
    }

    /// The type of the function `funcidx`, imported or not.
    pub fn get_func_type(&self, funcidx: u32) -> (r: Type)
        requires
            funcidx < self@.func_types().len(),
            self@.func_types()[funcidx as int] < self@.types().len(),
        ensures
            r.deep_view() == self@.types()[self@.func_types()[funcidx as int] as int],
    {
        let typeidx = self.get_func_typeidx(funcidx);
        let types = self.type_section();
        assert(types.deep_view()[typeidx as int] == types@[typeidx as int].deep_view());
        types[typeidx as usize].clone()
    }

    /// The body of the function `funcidx`, if it has one.
    pub fn get_code(&self, funcidx: u32) -> (r: Option<&Code>)
        ensures
            match r {
                Some(c) => self@.has_code(funcidx as int) && c.deep_view() == self@.code(
                    funcidx as int,
                ),
                None => !self@.has_code(funcidx as int),
            },
    {
        let n = self.imported_func_types().len();
        let codes = self.codes();
        if n <= funcidx as usize && funcidx as usize - n < codes.len() {
            let k = funcidx as usize - n;
            assert(codes.deep_view()[k as int] == codes@[k as int].deep_view());
            Some(&codes[k])
        } else {
            None
        }
    }

    /// The runs of locals that the function `funcidx` declares.
    pub fn func_locals(&self, funcidx: u32) -> (r: Vec<CodeLocal>)
        requires
            self@.has_code(funcidx as int),
        ensures
            r@ == self@.code(funcidx as int).locals,
    {
        match self.get_code(funcidx) {
            Some(code) => slice_to_vec(code.locals.as_slice()),
            None => Vec::new(),
        }
    }

    /// The number of locals that the function `funcidx` declares.
    pub fn func_locals_count(&self, funcidx: u32) -> (r: u32)
        requires
            self@.has_code(funcidx as int),
            locals_count(self@.code(funcidx as int).locals, self@.code(funcidx as int).locals.len())
                <= u32::MAX,
        ensures
            r == locals_count(
                self@.code(funcidx as int).locals,
                self@.code(funcidx as int).locals.len(),
            ),
    {
        let locals = self.func_locals(funcidx);
        let mut count: u32 = 0;
        let mut k: usize = 0;
        while k < locals.len()
            invariant
                k <= locals.len(),
                count == locals_count(locals@, k as nat),
                locals_count(locals@, locals@.len()) <= u32::MAX,
            decreases locals.len() - k,
        {
            proof {
                lemma_locals_count_monotonic(locals@, (k + 1) as nat, locals@.len());
            }
            count += locals[k].count;
            k += 1;
        }
        count
    }

    /// Whether an export of the module is the function `funcidx`.
    pub fn is_func_exported(&self, funcidx: u32) -> (r: bool)
        ensures
            r == exists|k: int|
                0 <= k < self@.exports().len() && (#[trigger] self@.exports()[k]).descr
                    == ExportDescr::Func(funcidx),
    {
        let exports = self.exports();
        let ghost v = self@.exports();
        let mut k: usize = 0;
        while k < exports.len()
            invariant
                k <= exports.len(),
                v == exports.deep_view(),
                v == self@.exports(),
                v.len() == exports@.len(),
                forall|j: int| 0 <= j < k ==> (#[trigger] v[j]).descr != ExportDescr::Func(funcidx),
            decreases exports.len() - k,
        {
            assert(v[k as int] == exports@[k as int].deep_view());
            match exports[k].descr {
                ExportDescr::Func(f) => {
                    if f == funcidx {
                        assert(v[k as int].descr == ExportDescr::Func(funcidx));
                        return true;
                    }
                },
                _ => {},
            }
            k += 1;
        }
        false
    }

    /// The offset in the input at which the body of the function `funcidx`
    /// began, if it has a body.
    pub fn get_start_of_func(&self, funcidx: u32) -> (r: Option<usize>)
        ensures
            r == if self@.has_code(funcidx as int) {
                Some(self@.code(funcidx as int).body.start_offset)
            } else {
                None
            },
    {
        match self.get_code(funcidx) {
            Some(code) => Some(code.body.start_offset),
            None => None,
        }
    }
}

impl WasmModule {
    /// Appends `t` to the types of the module and returns its index. A
    /// module without a type section is left as it is, and 0 is returned.
    pub fn add_type(&mut self, t: &Type) -> (r: u32)
        requires
            old(self)@.section(SectionKind::Type) is Some,
            old(self)@.types().len() <= u32::MAX,
        ensures
            final(self)@ == old(self)@.add_type(t.deep_view()),
            r == old(self)@.types().len(),
    {
        let typeidx = self.type_section().len();
        match self.last_section(SectionKind::Type) {
            Some(k) => {
                let ghost before = self@;
                let ghost old_sections = self.inner.sections@;
                match &mut self.inner.sections[k].value {
                    Section::Type(_, content) => {
                        let ghost c = content.deep_view();
                        content.push(t.clone());
                        assert(content.deep_view() =~= c.push(t.deep_view()));
                    },
                    _ => {},
                }
                assert(self@.sections =~= before.add_type(t.deep_view()).sections);
                typeidx as u32
            },
            None => 0,
        }
    }
}

impl WasmModule {
    /// Appends a function to the module: `func` to its bodies, `typeidx` to
    /// the types of its functions. Returns the index of the new function.
    pub fn add_function(&mut self, func: Code, typeidx: u32) -> (r: u32)
        requires
            old(self)@.section(SectionKind::Code) is Some,
            old(self)@.section(SectionKind::Func) is Some,
            old(self)@.func_import_count() + old(self)@.codes().len() <= u32::MAX,
        ensures
            final(self)@ == old(self)@.add_function(func.deep_view(), typeidx),
            r == old(self)@.func_import_count() + old(self)@.codes().len(),
    {
        let funcidx = self.imported_func_types().len() + self.codes().len();
        let ghost before = self@;
        match self.last_section(SectionKind::Code) {
            Some(k) => {
                match &mut self.inner.sections[k].value {
                    Section::Code(_, content) => {
                        let ghost c = content.value.deep_view();
                        content.value.push(func);
                        assert(content.value.deep_view() =~= c.push(func.deep_view()));
                    },
                    _ => {},
                }
                assert(self@.sections =~= before.add_code(func.deep_view()).sections);
            },
            None => {},
        }
        let ghost middle = self@;
        match self.last_section(SectionKind::Func) {
            Some(k) => {
                match &mut self.inner.sections[k].value {
                    Section::Func(_, content) => {
                        content.push(typeidx);
                    },
                    _ => {},
                }
                assert(self@.sections =~= middle.add_func(typeidx).sections);
            },
            None => {},
        }
        funcidx as u32
    }

    /// Appends `local` to the runs of locals of the function `target_funcidx`
    /// and returns `true`, or returns `false` where the function has no body.
    pub fn add_func_local(&mut self, target_funcidx: u32, local: CodeLocal) -> (r: bool)
        ensures
            final(self)@ == old(self)@.add_func_local(target_funcidx as int, local),
            r == old(self)@.has_code(target_funcidx as int),
    {
        let n = self.imported_func_types().len();
        let count = self.codes().len();
        if !(n <= target_funcidx as usize && target_funcidx as usize - n < count) {
            return false;
        }
        let i = target_funcidx as usize - n;
        let ghost before = self@;
        match self.last_section(SectionKind::Code) {
            Some(k) => {
                match &mut self.inner.sections[k].value {
                    Section::Code(_, content) => {
                        let ghost c = content.value.deep_view();
                        content.value[i].locals.push(local);
                        assert(content.value.deep_view() =~= c.update(
                            i as int,
                            CodeV {
                                size: c[i as int].size,
                                locals: c[i as int].locals.push(local),
                                body: c[i as int].body,
                            },
                        ));
                    },
                    _ => {},
                }
                assert(self@.sections =~= before.add_func_local(
                    target_funcidx as int,
                    local,
                ).sections);
            },
            None => {},
        }
        true
    }

    /// Puts the section `s` in its place among the others: behind the last
    /// section whose place is no later than its own. The sections that are
    /// there are not moved.
    pub fn add_section(&mut self, s: Section)
        ensures
            final(self)@ == old(self)@.add_section(s.deep_view()),
    {
        let node = Value::new(s);
        let pos = node.pos();
        let ghost v = self@.sections;
        let mut n = self.inner.sections.len();
        while n > 0 && self.inner.sections[n - 1].pos() > pos
            invariant
                n <= self.inner.sections@.len(),
                v == self@.sections,
                v.len() == self.inner.sections@.len(),
                insert_position(v, pos, v.len()) == insert_position(v, pos, n as nat),
            decreases n,
        {
            assert(v[n - 1].value == self.inner.sections@[n - 1].value.deep_view());
            n -= 1;
        }
        proof {
            if n > 0 {
                assert(v[n - 1].value == self.inner.sections@[n - 1].value.deep_view());
            }
        }
        let ghost x = node.deep_view();
        self.inner.sections.insert(n, node);
        assert(self@.sections =~= v.insert(n as int, x));
    }

    /// Adds a custom section to the module.
    pub fn add_custom_section(&mut self, s: CustomSection)
        ensures
            final(self)@ == old(self)@.add_section(
                SectionV::Custom(Value { value: 0, start_offset: 0, end_offset: 0 }, s.deep_view()),
            ),
    {
        self.add_section(Section::Custom(Value::new(0), s));
    }

    /// Adds a build-id section that holds `build_id`.
    pub fn set_build_id(&mut self, build_id: &[u8])
        ensures
            final(self)@ == old(self)@.add_section(
                SectionV::Custom(
                    Value { value: 0, start_offset: 0, end_offset: 0 },
                    CustomSectionV::BuildId(build_id@),
                ),
            ),
    {
        self.add_custom_section(CustomSection::BuildId(slice_to_vec(build_id)));
    }

    /// Appends `global` to the globals of the module, in a global section
    /// of its own where the module had none, and returns its index: the
    /// imported globals come first.
    pub fn add_global(&mut self, global: Global) -> (r: Option<u32>)
        requires
            old(self)@.global_import_count() + old(self)@.globals().len() <= u32::MAX,
        ensures
            final(self)@ == old(self)@.add_global(global.deep_view()),
            r == Some((old(self)@.global_import_count() + old(self)@.globals().len()) as u32),
    {
        let globalidx = self.global_import_count() + self.globals().len();
        let ghost before = self@;
        match self.last_section(SectionKind::Global) {
            Some(k) => {
                match &mut self.inner.sections[k].value {
                    Section::Global(_, content) => {
                        let ghost c = content.deep_view();
                        content.push(global);
                        assert(content.deep_view() =~= c.push(global.deep_view()));
                    },
                    _ => {},
                }
                assert(self@.sections =~= before.add_global(global.deep_view()).sections);
            },
            None => {
                let mut globals: Vec<Global> = Vec::new();
                globals.push(global);
                assert(globals.deep_view() =~= seq![global.deep_view()]);
                self.add_section(Section::Global(Value::new(0), globals));
            },
        }
        Some(globalidx as u32)
    }

    /// Whether the module has a section of kind `kind`.
    pub fn has_section(&self, kind: SectionKind) -> (r: bool)
        ensures
            r == self@.section(kind) is Some,
    {
        self.last_section(kind).is_some()
    }

    /// Whether the module has an export section.
    pub fn has_export_section(&self) -> (r: bool)
        ensures
            r == self@.section(SectionKind::Export) is Some,
    {
        self.last_section(SectionKind::Export).is_some()
    }

    /// Exports the function `funcidx` under `name`.
    pub fn add_export_func(&mut self, name: &str, funcidx: u32)
        requires
            old(self)@.section(SectionKind::Export) is Some,
        ensures
            final(self)@ == old(self)@.add_export_func(name@, funcidx),
    {
        let ghost before = self@;
        match self.last_section(SectionKind::Export) {
            Some(k) => {
                match &mut self.inner.sections[k].value {
                    Section::Export(_, content) => {
                        let ghost c = content.deep_view();
                        let export = Export {
                            name: String::from_str(name),
                            descr: ExportDescr::Func(funcidx),
                        };
                        content.push(export);
                        assert(content.deep_view() =~= c.push(export.deep_view()));
                    },
                    _ => {},
                }
                assert(self@.sections =~= before.add_export_func(name@, funcidx).sections);
            },
            None => {},
        }
    }

    /// Appends an active data segment of `bytes` at `offset` to the data of
    /// the module, and returns the range of addresses that it covers.
    pub fn add_data(&mut self, offset: u32, bytes: &[u8]) -> (r: (u32, u32))
        requires
            old(self)@.section(SectionKind::Data) is Some,
            offset + bytes@.len() <= u32::MAX,
        ensures
            final(self)@ == old(self)@.add_data(offset, bytes@),
            r == (offset, (offset + bytes@.len()) as u32),
    {
        let ghost before = self@;
        match self.last_section(SectionKind::Data) {
            Some(k) => {
                match &mut self.inner.sections[k].value {
                    Section::Data(_, content) => {
                        let ghost c = content.deep_view();
                        let mut expr: Vec<Value<Instr>> = Vec::new();
                        expr.push(Value::new(Instr::i32_const(offset as i64)));
                        expr.push(Value::new(Instr::end));
                        let segment = DataSegment {
                            offset: Some(Value::new(expr)),
                            bytes: slice_to_vec(bytes),
                            mode: DataSegmentMode::Active,
                        };
                        assert(segment.offset.unwrap().deep_view().value =~= const_expr(
                            offset as i64,
                        ).value);
                        content.push(segment);
                        assert(content.deep_view() =~= c.push(segment.deep_view()));
                    },
                    _ => {},
                }
                assert(self@.sections =~= before.add_data(offset, bytes@).sections);
            },
            None => {},
        }
        (offset, offset + bytes.len() as u32)
    }

    /// The position of the `name` section that counts.
    fn name_section(&self) -> (r: Option<usize>)
        ensures
            match r {
                Some(k) => last_name_section(self@.sections, self@.sections.len()) == Some(
                    k as int,
                ) && k < self.inner.sections@.len() && self@.sections[k as int].value
                    == self.inner.sections@[k as int].value.deep_view() && is_name_section(
                    self@.sections[k as int].value,
                ),
                None => last_name_section(self@.sections, self@.sections.len()) is None,
            },
    {
        let ghost s = self@.sections;
        let mut n = self.inner.sections.len();
        while n > 0
            invariant
                n <= self.inner.sections@.len(),
                s == self@.sections,
                s.len() == self.inner.sections@.len(),
                last_name_section(s, s.len()) == last_name_section(s, n as nat),
            decreases n,
        {
            assert(s[n - 1].value == self.inner.sections@[n - 1].value.deep_view());
            match &self.inner.sections[n - 1].value {
                Section::Custom(_, CustomSection::Name(_)) => {
                    return Some(n - 1);
                },
                _ => {},
            }
            n -= 1;
        }
        None
    }

    /// Gives the function `funcidx` the name `name` in the `name` section,
    /// where that section holds function names. Else nothing is changed.
    pub fn add_func_name(&mut self, funcidx: u32, name: &str)
        ensures
            final(self)@ == old(self)@.add_func_name(funcidx, name@),
    {
        broadcast use vstd::std_specs::hash::group_hash_axioms;

        let ghost before = self@;
        match self.name_section() {
            Some(k) => {
                match &mut self.inner.sections[k].value {
                    Section::Custom(_, CustomSection::Name(names)) => {
                        match &mut names.func_names {
                            Some(map) => {
                                let ghost m = names_view(*map);
                                map.insert(funcidx, String::from_str(name));
                                assert(names_view(*map) =~= m.insert(funcidx, name@));
                            },
                            None => {},
                        }
                    },
                    _ => {},
                }
                assert(self@.sections =~= before.add_func_name(funcidx, name@).sections);
            },
            None => {},
        }
    }

    /// The name of the function `funcidx` in the `name` section, if it has
    /// one there.
    pub fn get_func_name(&self, funcidx: u32) -> (r: Option<String>)
        ensures
            match r {
                Some(name) => self@.func_names() matches Some(m) && m.contains_key(funcidx)
                    && m[funcidx] == name@,
                None => self@.func_names() matches Some(m) ==> !m.contains_key(funcidx),
            },
    {
        broadcast use vstd::std_specs::hash::group_hash_axioms;

        match self.name_section() {
            Some(k) => match &self.inner.sections[k].value {
                Section::Custom(_, CustomSection::Name(names)) => match &names.func_names {
                    Some(map) => match map.get(&funcidx) {
                        Some(name) => Some(name.clone()),
                        None => None,
                    },
                    None => None,
                },
                _ => None,
            },
            None => None,
        }
    }

    /// The position among the imports of the first import named `name`, or 0
    /// where there is none.
    pub fn find_import(&self, name: &str) -> (r: u32)
        requires
            self@.imports().len() <= u32::MAX,
        ensures
            r == match first_import_named(self@.imports(), name@, 0) {
                Some(k) => k as u32,
                None => 0u32,
            },
    {
        let imports = self.imports();
        let ghost v = self@.imports();
        let mut k: usize = 0;
        while k < imports.len()
            invariant
                k <= imports.len(),
                v == imports.deep_view(),
                v == self@.imports(),
                v.len() == imports@.len(),
                v.len() <= u32::MAX,
                first_import_named(v, name@, 0) == first_import_named(v, name@, k as int),
            decreases imports.len() - k,
        {
            assert(v[k as int] == imports@[k as int].deep_view());
            if same_text(imports[k].name.as_str(), name) {
                return k as u32;
            }
            k += 1;
        }
        0
    }

    /// Adding an import is not offered: it would move every function index
    /// of the module. The module is left as it is.
    pub fn add_import(&mut self, _import: &Import) -> (r: Result<u32, FacadeError>)
        ensures
            r == Err::<u32, FacadeError>(FacadeError::Unsupported),
            final(self).inner == old(self).inner,
    {
        Err(FacadeError::Unsupported)
    }

    /// The bytes of the first custom section of unknown kind named `name`.
    pub fn get_custom_section(&self, name: &str) -> (r: Option<Vec<u8>>)
        ensures
            match first_custom_bytes(self@.sections, name@, 0) {
                Some(bytes) => r matches Some(b) && b@ == bytes,
                None => r is None,
            },
    {
        let ghost s = self@.sections;
        let mut k: usize = 0;
        while k < self.inner.sections.len()
            invariant
                k <= self.inner.sections@.len(),
                s == self@.sections,
                s.len() == self.inner.sections@.len(),
                first_custom_bytes(s, name@, 0) == first_custom_bytes(s, name@, k as int),
            decreases self.inner.sections.len() - k,
        {
            assert(s[k as int].value == self.inner.sections@[k as int].value.deep_view());
            match &self.inner.sections[k].value {
                Section::Custom(_, CustomSection::Unknown(section_name, bytes)) => {
                    if same_text(section_name.as_str(), name) {
                        return Some(slice_to_vec(bytes.as_slice()));
                    }
                },
                _ => {},
            }
            k += 1;
        }
        None
    }

    /// The contents of the custom sections of the module, in order.
    pub fn get_custom_sections(&self) -> (r: Vec<&CustomSection>)
        ensures
            r.deep_view() == custom_sections(self@.sections, self@.sections.len()),
    {
        let ghost s = self@.sections;
        let mut r: Vec<&CustomSection> = Vec::new();
        let mut k: usize = 0;
        assert(r.deep_view() =~= custom_sections(s, 0));
        while k < self.inner.sections.len()
            invariant
                k <= self.inner.sections@.len(),
                s == self@.sections,
                s.len() == self.inner.sections@.len(),
                r.deep_view() == custom_sections(s, k as nat),
            decreases self.inner.sections.len() - k,
        {
            assert(s[k as int].value == self.inner.sections@[k as int].value.deep_view());
            let ghost before = r.deep_view();
            match &self.inner.sections[k].value {
                Section::Custom(_, content) => {
                    r.push(content);
                    assert(r.deep_view() =~= before.push(content.deep_view()));
                },
                _ => {},
            }
            k += 1;
        }
        r
    }

    /// The id of the last build-id section of the module.
    pub fn get_build_id(&self) -> (r: Option<&Vec<u8>>)
        ensures
            match last_build_id(self@.sections, self@.sections.len()) {
                Some(id) => r matches Some(b) && b@ == id,
                None => r is None,
            },
    {
        let ghost s = self@.sections;
        let mut n = self.inner.sections.len();
        while n > 0
            invariant
                n <= self.inner.sections@.len(),
                s == self@.sections,
                s.len() == self.inner.sections@.len(),
                last_build_id(s, s.len()) == last_build_id(s, n as nat),
            decreases n,
        {
            assert(s[n - 1].value == self.inner.sections@[n - 1].value.deep_view());
            match &self.inner.sections[n - 1].value {
                Section::Custom(_, CustomSection::BuildId(id)) => {
                    return Some(id);
                },
                _ => {},
            }
            n -= 1;
        }
        None
    }

    /// Removes the last custom section that `name` names: one of unknown kind
    /// with that name, or the `name` section where `name` is `"name"`.
    /// Returns `Some` where a section was removed.
    pub fn remove_custom_section(&mut self, name: &str) -> (r: Option<()>)
        ensures
            final(self)@ == old(self)@.remove_custom_section(name@),
            r is Some == last_custom(old(self)@.sections, name@, old(self)@.sections.len()) is Some,
    {
        let ghost s = self@.sections;
        let is_name = same_text(name, "name");
        let mut n = self.inner.sections.len();
        while n > 0
            invariant
                n <= self.inner.sections@.len(),
                s == self@.sections,
                s == old(self)@.sections,
                s.len() == self.inner.sections@.len(),
                is_name == (name@ == "name"@),
                last_custom(s, name@, s.len()) == last_custom(s, name@, n as nat),
            decreases n,
        {
            assert(s[n - 1].value == self.inner.sections@[n - 1].value.deep_view());
            let found = match &self.inner.sections[n - 1].value {
                Section::Custom(_, CustomSection::Unknown(section_name, _)) => same_text(
                    section_name.as_str(),
                    name,
                ),
                Section::Custom(_, CustomSection::Name(_)) => is_name,
                _ => false,
            };
            if found {
                self.inner.sections.remove(n - 1);
                assert(self@.sections =~= s.remove(n - 1));
                return Some(());
            }
            n -= 1;
        }
        None
    }

    /// The body and the type of the function that is exported as `name`.
    pub fn get_export_func(&self, name: &str) -> (r: Result<(&Code, Type), FacadeError>)
        ensures
            match first_export_named(self@.exports(), name@, 0) {
                None => r is Err && r->Err_0 == FacadeError::NotFound,
                Some(k) => match self@.exports()[k].descr {
                    ExportDescr::Func(f) => if self@.has_code(f as int) && f
                        < self@.func_types().len() && self@.func_types()[f as int]
                        < self@.types().len() {
                        r matches Ok((code, t)) && code.deep_view() == self@.code(f as int)
                            && t.deep_view() == self@.types()[self@.func_types()[f as int] as int]
                    } else {
                        r is Err && r->Err_0 == FacadeError::NotFound
                    },
                    _ => r is Err && r->Err_0 == FacadeError::TypeMismatch,
                },
            },
    {
        let exports = self.exports();
        let ghost v = self@.exports();
        let mut k: usize = 0;
        while k < exports.len()
            invariant
                k <= exports.len(),
                v == exports.deep_view(),
                v == self@.exports(),
                v.len() == exports@.len(),
                first_export_named(v, name@, 0) == first_export_named(v, name@, k as int),
            decreases exports.len() - k,
        {
            assert(v[k as int] == exports@[k as int].deep_view());
            if same_text(exports[k].name.as_str(), name) {
                match exports[k].descr {
                    ExportDescr::Func(f) => {
                        let code = match self.get_code(f) {
                            Some(code) => code,
                            None => {
                                return Err(FacadeError::NotFound);
                            },
                        };
                        let imported = self.imported_func_types().len();
                        if f as usize >= imported && f as usize - imported >= self.funcs().len() {
                            return Err(FacadeError::NotFound);
                        }
                        let typeidx = self.get_func_typeidx(f);
                        let t = match self.get_type(typeidx) {
                            Some(t) => t,
                            None => {
                                return Err(FacadeError::NotFound);
                            },
                        };
                        return Ok((code, t));
                    },
                    _ => {
                        return Err(FacadeError::TypeMismatch);
                    },
                }
            }
            k += 1;
        }
        Err(FacadeError::NotFound)
    }
}

impl WasmModule {
    /// The coredump that the module holds. It is `Malformed` where the
    /// module has no `core` section, or a data section without an image.
    pub fn get_coredump(&self) -> (r: Result<Coredump, FacadeError>)
        ensures
            match self@.coredump() {
                Some(c) => r matches Ok(x) && x.deep_view() == c,
                None => r == Err::<Coredump, FacadeError>(FacadeError::Malformed),
            },
    {
        let ghost s = self@.sections;
        let mut data: Vec<u8> = Vec::new();
        let mut stacks: Vec<CoreStack> = Vec::new();
        let mut process_info: Option<ProcessInfo> = None;
        let mut memory: Vec<(u32, Option<u32>)> = Vec::new();
        let mut k: usize = 0;
        assert(stacks.deep_view() =~= Seq::<CoreStackV>::empty());
        while k < self.inner.sections.len()
            invariant
                k <= self.inner.sections@.len(),
                s == self@.sections,
                s.len() == self.inner.sections@.len(),
                scan_coredump(s, k as nat) matches Some(scan) && scan.data == data@ && scan.memory
                    == memory@ && scan.stacks == stacks.deep_view() && scan.process_info
                    == process_info.deep_view(),
            decreases self.inner.sections.len() - k,
        {
            assert(s[k as int].value == self.inner.sections@[k as int].value.deep_view());
            match &self.inner.sections[k].value {
                Section::Data(_, content) => {
                    match image_of(content) {
                        Some(image) => {
                            data = image;
                        },
                        None => {
                            proof {
                                lemma_scan_fails(s, (k + 1) as nat, s.len());
                            }
                            return Err(FacadeError::Malformed);
                        },
                    }
                },
                Section::Memory(_, content) => {
                    let ghost before = memory@;
                    let mut j: usize = 0;
                    assert(memory@ =~= before + memory_limits(content@, 0));
                    while j < content.len()
                        invariant
                            j <= content.len(),
                            memory@ == before + memory_limits(content@, j as nat),
                        decreases content.len() - j,
                    {
                        memory.push((content[j].min.value, content[j].max));
                        j += 1;
                        assert(memory@ =~= before + memory_limits(content@, j as nat));
                    }
                },
                Section::Custom(_, CustomSection::CoredumpCore(info)) => {
                    process_info = Some(info.clone());
                },
                Section::Custom(_, CustomSection::CoredumpCoreStack(stack)) => {
                    let ghost before = stacks.deep_view();
                    stacks.push(stack.clone());
                    assert(stacks.deep_view() =~= before.push(stack.deep_view()));
                },
                _ => {},
            }
            k += 1;
        }
        match process_info {
            Some(process_info) => Ok(Coredump { data, stacks, process_info, memory }),
            None => Err(FacadeError::Malformed),
        }
    }
}

/// The memory image of a data section.
fn image_of(segments: &Vec<DataSegment>) -> (r: Option<Vec<u8>>)
    ensures
        match data_image(segments.deep_view()) {
            Some(image) => r matches Some(x) && x@ == image,
            None => r is None,
        },
{
    if segments.len() == 0 {
        return None;
    }
    let segment = &segments[0];
    assert(segments.deep_view()[0] == segment.deep_view());
    let offset = segment.const_offset()?;
    if offset < 0 || offset as u64 > usize::MAX as u64 {
        return None;
    }
    let n = offset as usize;
    let mut image: Vec<u8> = Vec::new();
    let mut i: usize = 0;
    while i < n
        invariant
            i <= n,
            image@ == Seq::new(i as nat, |i: int| 0u8),
        decreases n - i,
    {
        image.push(0u8);
        i += 1;
        assert(image@ =~= Seq::new(i as nat, |i: int| 0u8));
    }
    let mut j: usize = 0;
    let ghost padding = image@;
    while j < segment.bytes.len()
        invariant
            j <= segment.bytes.len(),
            image@ == padding + segment.bytes@.subrange(0, j as int),
        decreases segment.bytes.len() - j,
    {
        image.push(segment.bytes[j]);
        j += 1;
        assert(image@ =~= padding + segment.bytes@.subrange(0, j as int));
    }
    assert(segment.bytes@.subrange(0, j as int) =~= segment.bytes@);
    Some(image)
}

/// Once the scan has failed it stays failed.
pub proof fn lemma_scan_fails(s: Seq<Value<SectionV>>, k: nat, n: nat)
    requires
        k <= n <= s.len(),
        scan_coredump(s, k) is None,
    ensures
        scan_coredump(s, n) is None,
    decreases n,
{
    if k < n {
        lemma_scan_fails(s, k, (n - 1) as nat);
    }
}

impl WasmModule {
    /// Takes the instructions of the function `funcidx` out of the module,
    /// leaving its body without instructions. `None` where the function has
    /// no body.
    pub fn take_body(&mut self, funcidx: u32) -> (r: Option<Vec<Value<Instr>>>)
        ensures
            match r {
                Some(nodes) => old(self)@.has_code(funcidx as int) && nodes.deep_view() == old(
                    self,
                )@.code(funcidx as int).body.value && final(self)@ == old(self)@.with_body(
                    funcidx as int,
                    Seq::empty(),
                ),
                None => !old(self)@.has_code(funcidx as int) && final(self)@ == old(self)@,
            },
    {
        let n = self.imported_func_types().len();
        let count = self.codes().len();
        if !(n <= funcidx as usize && funcidx as usize - n < count) {
            return None;
        }
        let i = funcidx as usize - n;
        let ghost before = self@;
        let mut nodes: Vec<Value<Instr>> = Vec::new();
        match self.last_section(SectionKind::Code) {
            Some(k) => {
                match &mut self.inner.sections[k].value {
                    Section::Code(_, content) => {
                        let ghost c = content.value.deep_view();
                        core::mem::swap(&mut content.value[i].body.value, &mut nodes);
                        assert(content.value@[i as int].body.value.deep_view() =~= Seq::<
                            Value<InstrV>,
                        >::empty());
                        assert(content.value.deep_view() =~= c.update(
                            i as int,
                            CodeV {
                                size: c[i as int].size,
                                locals: c[i as int].locals,
                                body: Value {
                                    value: Seq::empty(),
                                    start_offset: c[i as int].body.start_offset,
                                    end_offset: c[i as int].body.end_offset,
                                },
                            },
                        ));
                    },
                    _ => {},
                }
                assert(self@.sections =~= before.with_body(funcidx as int, Seq::empty()).sections);
            },
            None => {},
        }
        Some(nodes)
    }

    /// Makes `nodes` the instructions of the function `funcidx`, where it
    /// has a body, and tells whether it has.
    pub fn put_body(&mut self, funcidx: u32, nodes: Vec<Value<Instr>>) -> (r: bool)
        ensures
            r == old(self)@.has_code(funcidx as int),
            final(self)@ == if r {
                old(self)@.with_body(funcidx as int, nodes.deep_view())
            } else {
                old(self)@
            },
    {
        let n = self.imported_func_types().len();
        let count = self.codes().len();
        if !(n <= funcidx as usize && funcidx as usize - n < count) {
            return false;
        }
        let i = funcidx as usize - n;
        let ghost before = self@;
        let ghost new_nodes = nodes.deep_view();
        match self.last_section(SectionKind::Code) {
            Some(k) => {
                match &mut self.inner.sections[k].value {
                    Section::Code(_, content) => {
                        let ghost c = content.value.deep_view();
                        content.value[i].body.value = nodes;
                        assert(content.value.deep_view() =~= c.update(
                            i as int,
                            CodeV {
                                size: c[i as int].size,
                                locals: c[i as int].locals,
                                body: Value {
                                    value: new_nodes,
                                    start_offset: c[i as int].body.start_offset,
                                    end_offset: c[i as int].body.end_offset,
                                },
                            },
                        ));
                    },
                    _ => {},
                }
                assert(self@.sections =~= before.with_body(funcidx as int, new_nodes).sections);
            },
            None => {},
        }
        true
    }

    /// Puts `code` in the place of the body of the function `funcidx`, where
    /// it has one, and tells whether it has.
    pub fn replace_code(&mut self, funcidx: u32, code: Code) -> (r: bool)
        ensures
            r == old(self)@.has_code(funcidx as int),
            final(self)@ == if r {
                old(self)@.with_code(funcidx as int, code.deep_view())
            } else {
                old(self)@
            },
    {
        let n = self.imported_func_types().len();
        let count = self.codes().len();
        if !(n <= funcidx as usize && funcidx as usize - n < count) {
            return false;
        }
        let i = funcidx as usize - n;
        let ghost before = self@;
        let ghost new_code = code.deep_view();
        match self.last_section(SectionKind::Code) {
            Some(k) => {
                match &mut self.inner.sections[k].value {
                    Section::Code(_, content) => {
                        let ghost c = content.value.deep_view();
                        content.value[i] = code;
                        assert(content.value.deep_view() =~= c.update(i as int, new_code));
                    },
                    _ => {},
                }
                assert(self@.sections =~= before.with_code(funcidx as int, new_code).sections);
            },
            None => {},
        }
        true
    }
}

/// What a visitor is handed at a node, and where it leaves what it asks for.
pub struct VisitorContext<'a, T> {
    /// The module that is being traversed.
    pub module: WasmModule,
    /// The nodes to put after the node.
    pub insert_nodes_after: Vec<T>,
    /// The nodes to put before the node.
    pub insert_nodes_before: Vec<T>,
    /// The node to put in the place of the node.
    pub replace_node: Option<T>,
    /// The function whose body holds the node, where the node is an
    /// instruction.
    pub curr_funcidx: Option<u32>,
    /// The node.
    pub node: &'a T,
    /// Whether to leave the rest of the body alone.
    pub traverse_stop: bool,
}

impl<'a, T> VisitorContext<'a, T> {
    /// The context of `node` beside `module`, which asks for nothing yet.
    pub fn new(module: WasmModule, node: &'a T) -> (r: Self)
        ensures
            r.module == module,
            r.node == node,
            r.insert_nodes_after@.len() == 0,
            r.insert_nodes_before@.len() == 0,
            r.replace_node is None,
            r.curr_funcidx is None,
            !r.traverse_stop,
    {
        Self {
            node,
            module,
            insert_nodes_after: Vec::new(),
            insert_nodes_before: Vec::new(),
            replace_node: None,
            curr_funcidx: None,
            traverse_stop: false,
        }
    }
}

impl<'a, T> VisitorContext<'a, T> {
    /// Whether the context is as `new` made it: it asks for nothing.
    pub open spec fn is_new(&self) -> bool {
        self.insert_nodes_before@.len() == 0 && self.insert_nodes_after@.len() == 0
            && self.replace_node is None && self.curr_funcidx is None && !self.traverse_stop
    }
}

impl<'a, T> VisitorContext<'a, Vec<T>> {
    /// Asks for `new_node` to be added to the section.
    pub fn insert_node_after(&mut self, new_node: T)
        ensures
            final(self).insert_nodes_after@.len() == old(self).insert_nodes_after@.len() + 1,
            final(self).insert_nodes_after@.last()@ == seq![new_node],
            final(self).insert_nodes_after@.drop_last() == old(self).insert_nodes_after@,
            final(self).insert_nodes_before == old(self).insert_nodes_before,
            final(self).replace_node == old(self).replace_node,
            final(self).module == old(self).module,
            final(self).curr_funcidx == old(self).curr_funcidx,
            final(self).node == old(self).node,
            final(self).traverse_stop == old(self).traverse_stop,
    {
        let mut nodes: Vec<T> = Vec::new();
        nodes.push(new_node);
        self.insert_nodes_after.push(nodes);
        assert(self.insert_nodes_after@.drop_last() =~= old(self).insert_nodes_after@);
    }

    /// Asks for `new_node` to be put before the section's nodes. The
    /// traversal adds nodes at the end of a section only, and passes over
    /// what is asked for here.
    pub fn insert_node_before(&mut self, new_node: T)
        ensures
            final(self).insert_nodes_before@.len() == old(self).insert_nodes_before@.len() + 1,
            final(self).insert_nodes_before@.last()@ == seq![new_node],
            final(self).insert_nodes_before@.drop_last() == old(self).insert_nodes_before@,
            final(self).insert_nodes_after == old(self).insert_nodes_after,
            final(self).replace_node == old(self).replace_node,
            final(self).module == old(self).module,
            final(self).curr_funcidx == old(self).curr_funcidx,
            final(self).node == old(self).node,
            final(self).traverse_stop == old(self).traverse_stop,
    {
        let mut nodes: Vec<T> = Vec::new();
        nodes.push(new_node);
        self.insert_nodes_before.push(nodes);
        assert(self.insert_nodes_before@.drop_last() =~= old(self).insert_nodes_before@);
    }
}

impl<'a> VisitorContext<'a, Value<Instr>> {
    /// Whether the context asks for nothing yet.
    pub open spec fn asks_nothing(&self) -> bool {
        self.insert_nodes_before@.len() == 0 && self.insert_nodes_after@.len() == 0
            && self.replace_node is None && !self.traverse_stop
    }

    /// What the context asks for, as an edit.
    pub open spec fn edit(&self) -> InstrEdit {
        InstrEdit {
            before: self.insert_nodes_before.deep_view(),
            after: self.insert_nodes_after.deep_view(),
            replace: self.replace_node.deep_view(),
            stop: self.traverse_stop,
        }
    }

    /// Asks for the rest of the body to be left alone.
    pub fn stop_traversal(&mut self)
        ensures
            final(self).edit() == (InstrEdit { stop: true, ..old(self).edit() }),
            final(self).module == old(self).module,
            final(self).curr_funcidx == old(self).curr_funcidx,
            final(self).node == old(self).node,
    {
        self.traverse_stop = true;
    }

    /// Asks for `new_node` to be put after the instruction, behind what was
    /// asked for before.
    pub fn insert_node_after(&mut self, new_node: Instr)
        ensures
            final(self).edit() == (InstrEdit {
                after: old(self).edit().after.push(
                    Value { value: new_node.deep_view(), start_offset: 0, end_offset: 0 },
                ),
                ..old(self).edit()
            }),
            final(self).module == old(self).module,
            final(self).curr_funcidx == old(self).curr_funcidx,
            final(self).node == old(self).node,
    {
        let ghost before = self.insert_nodes_after.deep_view();
        let node = Value::new(new_node);
        self.insert_nodes_after.push(node);
        assert(self.insert_nodes_after.deep_view() =~= before.push(node.deep_view()));
    }

    /// Asks for `new_node` to be put before the instruction, behind what was
    /// asked for before.
    pub fn insert_node_before(&mut self, new_node: Instr)
        ensures
            final(self).edit() == (InstrEdit {
                before: old(self).edit().before.push(
                    Value { value: new_node.deep_view(), start_offset: 0, end_offset: 0 },
                ),
                ..old(self).edit()
            }),
            final(self).module == old(self).module,
            final(self).curr_funcidx == old(self).curr_funcidx,
            final(self).node == old(self).node,
    {
        let ghost before = self.insert_nodes_before.deep_view();
        let node = Value::new(new_node);
        self.insert_nodes_before.push(node);
        assert(self.insert_nodes_before.deep_view() =~= before.push(node.deep_view()));
    }

    /// Asks for `new_node` to be put in the place of the instruction.
    pub fn replace_node(&mut self, new_node: Instr)
        ensures
            final(self).edit() == (InstrEdit {
                replace: Some(
                    Value { value: new_node.deep_view(), start_offset: 0, end_offset: 0 },
                ),
                ..old(self).edit()
            }),
            final(self).module == old(self).module,
            final(self).curr_funcidx == old(self).curr_funcidx,
            final(self).node == old(self).node,
    {
        self.replace_node = Some(Value::new(new_node));
    }
}

/// The callbacks of a pass over a module, one for each kind of node. Each
/// does nothing unless a visitor says otherwise.
///
/// What stands under `ensures` is asked of every visitor: the traversal
/// relies on it. A visitor may ensure more of a callback that it writes,
/// and the traversal hands that on: of each call that it made, a pass says
/// what that visitor ensures (`instr_answer`, `code_answer`,
/// `section_answer`). Of a callback that a visitor leaves as it is, that is
/// what stands under `default_ensures`.
pub trait Visitor {
    /// Called for each instruction but the structured ones, whose bodies are
    /// walked. The visitor may ask for edits, and may edit the module.
    fn visit_instr<'a>(&self, _ctx: &mut VisitorContext<'a, Value<Instr>>)
        requires
            old(_ctx).curr_funcidx is Some,
            old(_ctx).insert_nodes_before@.len() == 0,
            old(_ctx).insert_nodes_after@.len() == 0,
            old(_ctx).replace_node is None,
            !old(_ctx).traverse_stop,
        ensures
            keeps_functions(old(_ctx).module@, final(_ctx).module@),
        default_ensures
            *final(_ctx) == *old(_ctx),
    {
    }

    /// Called for each type.
    fn visit_type<'a>(&self, _ctx: &mut VisitorContext<'a, Type>, _typeidx: u32)
        ensures
            final(_ctx).module == old(_ctx).module,
    {
    }

    /// Called once for each code section. The visitor may ask for bodies to
    /// be added.
    fn visit_code_section<'a>(&self, _ctx: &mut VisitorContext<'a, Vec<Code>>)
        ensures
            final(_ctx).module == old(_ctx).module,
        default_ensures
            *final(_ctx) == *old(_ctx),
    {
    }

    /// Called once for each import section. The visitor may ask for imports
    /// to be added.
    fn visit_import_section<'a>(&self, _ctx: &mut VisitorContext<'a, Vec<Import>>)
        ensures
            final(_ctx).module == old(_ctx).module,
        default_ensures
            *final(_ctx) == *old(_ctx),
    {
    }

    /// Called once for each function section. The visitor may ask for type
    /// indices to be added.
    fn visit_func_section<'a>(&self, _ctx: &mut VisitorContext<'a, Vec<u32>>)
        ensures
            final(_ctx).module == old(_ctx).module,
        default_ensures
            *final(_ctx) == *old(_ctx),
    {
    }

    /// Called once for each data section. The visitor may ask for segments
    /// to be added.
    fn visit_data_section<'a>(&self, _ctx: &mut VisitorContext<'a, Vec<DataSegment>>)
        ensures
            final(_ctx).module == old(_ctx).module,
        default_ensures
            *final(_ctx) == *old(_ctx),
    {
    }

    /// Called for each table.
    fn visit_table<'a>(&self, _ctx: &mut VisitorContext<'a, Table>)
        ensures
            final(_ctx).module == old(_ctx).module,
    {
    }

    /// Called for each export.
    fn visit_export<'a>(&self, _ctx: &mut VisitorContext<'a, Export>)
        ensures
            final(_ctx).module == old(_ctx).module,
    {
    }

    /// Called for each element segment.
    fn visit_element<'a>(&self, _ctx: &mut VisitorContext<'a, Element>)
        ensures
            final(_ctx).module == old(_ctx).module,
    {
    }

    /// Called for each function with a body, before its instructions are
    /// walked. The visitor may ask for the body to be replaced.
    fn visit_code<'a>(&self, _ctx: &mut VisitorContext<'a, Code>, _funcidx: u32)
        requires
            old(_ctx).module@.has_code(_funcidx as int),
            old(_ctx).node.deep_view() == old(_ctx).module@.code(_funcidx as int),
            old(_ctx).replace_node is None,
        ensures
            final(_ctx).module == old(_ctx).module,
        default_ensures
            *final(_ctx) == *old(_ctx),
    {
    }
}

/// Whether the functions of `old` are functions of `new` under the same
/// indices: no import was added or removed, and no body removed.
pub open spec fn keeps_functions(old: ModuleV, new: ModuleV) -> bool {
    old.func_import_count() == new.func_import_count() && old.codes().len() <= new.codes().len()
}

/// Hands the instruction of `ctx` to `visitor`, and returns the context as
/// the visitor left it: the two are a call of this visitor's `visit_instr`,
/// of which all holds that the visitor ensures.
pub fn ask_instr<'a, V: Visitor>(visitor: &V, ctx: VisitorContext<'a, Value<Instr>>) -> (r:
    VisitorContext<'a, Value<Instr>>)
    requires
        ctx.curr_funcidx is Some,
        ctx.asks_nothing(),
    ensures
        keeps_functions(ctx.module@, r.module@),
        exists|g: &mut VisitorContext<'a, Value<Instr>>|
            *g == ctx && *final(g) == r && call_ensures(V::visit_instr, (visitor, g), ()),
{
    let mut ctx = ctx;
    visitor.visit_instr(&mut ctx);
    ctx
}

/// Whether `visitor`, handed the instruction `node` of the function
/// `funcidx` beside the module `before`, can answer with `edit` and leave
/// the module `after`.
#[verifier::opaque]
pub open spec fn instr_answer<V: Visitor>(
    visitor: &V,
    before: ModuleV,
    funcidx: u32,
    node: Value<InstrV>,
    edit: InstrEdit,
    after: ModuleV,
) -> bool {
    exists|ctx: VisitorContext<Value<Instr>>, out: VisitorContext<Value<Instr>>|
        #[trigger] call_ensures(ask_instr::<V>, (visitor, ctx), out) && ctx.asks_nothing()
            && ctx.module@ == before && ctx.curr_funcidx == Some(funcidx) && ctx.node.deep_view()
            == node && out.edit() == edit && out.module@ == after
}

/// Whether `visits`, a walk of `body` in the function `funcidx` that began
/// beside the module `start`, holds answers of `visitor`: at each
/// instruction that was handed to it, an edit that the visitor can answer
/// with, beside the module that the visits before it left.
pub open spec fn answered<V: Visitor>(
    visitor: &V,
    funcidx: u32,
    body: Seq<Value<InstrV>>,
    visits: Seq<Visit>,
    start: ModuleV,
) -> bool
    decreases visits,
{
    forall|k: int|
        0 <= k < visits.len() && k < body.len() ==> match #[trigger] visits[k] {
            Visit::Leaf(e, m) => instr_answer(
                visitor,
                left_by(visits, k as nat, start),
                funcidx,
                body[k],
                e,
                m,
            ),
            Visit::Nested(inner) => match nested_body(body[k].value) {
                Some(b) => answered(visitor, funcidx, b, inner, left_by(visits, k as nat, start)),
                None => true,
            },
        }
}

/// The items of `v` in the opposite order.
pub fn reversed<T>(v: Vec<T>) -> (r: Vec<T>)
    ensures
        r@ == v@.reverse(),
{
    let mut v = v;
    let ghost all = v@;
    let mut r: Vec<T> = Vec::new();
    while v.len() > 0
        invariant
            v@.len() + r@.len() == all.len(),
            v@ == all.subrange(0, v@.len() as int),
            forall|k: int| 0 <= k < r@.len() ==> #[trigger] r@[k] == all[all.len() - 1 - k],
        decreases v@.len(),
    {
        let ghost before = v@;
        match v.pop() {
            Some(x) => {
                r.push(x);
            },
            None => {},
        }
        assert(v@ =~= all.subrange(0, v@.len() as int));
    }
    assert(r@ =~= all.reverse());
    r
}

/// Moves the items of `items` to the end of `out`.
fn append_nodes(out: &mut Vec<Value<Instr>>, items: Vec<Value<Instr>>)
    ensures
        final(out).deep_view() == old(out).deep_view() + items.deep_view(),
        final(out)@ == old(out)@ + items@,
{
    let ghost start = out.deep_view();
    let ghost all = items.deep_view();
    let mut items = items;
    out.append(&mut items);
    assert(out.deep_view() =~= start + all);
}

/// Hands the function of `ctx` to `visitor`, and returns the context as the
/// visitor left it: the two are a call of this visitor's `visit_code`, of
/// which all holds that the visitor ensures.
pub fn ask_code<'a, V: Visitor>(visitor: &V, ctx: VisitorContext<'a, Code>, funcidx: u32) -> (r:
    VisitorContext<'a, Code>)
    requires
        ctx.module@.has_code(funcidx as int),
        ctx.node.deep_view() == ctx.module@.code(funcidx as int),
        ctx.replace_node is None,
    ensures
        r.module == ctx.module,
        exists|g: &mut VisitorContext<'a, Code>|
            *g == ctx && *final(g) == r && call_ensures(V::visit_code, (visitor, g, funcidx), ()),
{
    let mut ctx = ctx;
    visitor.visit_code(&mut ctx, funcidx);
    ctx
}

/// Whether `visitor`, handed the function `funcidx` of `module`, can ask
/// for `replaced` to be put in its place (`None`: for nothing).
#[verifier::opaque]
pub open spec fn code_answer<V: Visitor>(
    visitor: &V,
    module: ModuleV,
    funcidx: u32,
    replaced: Option<CodeV>,
) -> bool {
    exists|ctx: VisitorContext<Code>, out: VisitorContext<Code>|
        #[trigger] call_ensures(ask_code::<V>, (visitor, ctx, funcidx), out) && ctx.module@
            == module && ctx.node.deep_view() == module.code(funcidx as int) && ctx.replace_node
            is None && ctx.curr_funcidx is None && ctx.insert_nodes_before@.len() == 0
            && ctx.insert_nodes_after@.len() == 0 && !ctx.traverse_stop
            && out.replace_node.deep_view() == replaced
}

/// Whether what happened at a function holds answers of `visitor`: what it
/// asked to put in the place of the function, and what it asked for at each
/// instruction that it was handed.
pub open spec fn function_answered<V: Visitor>(visitor: &V, f: FunctionVisit) -> bool {
    code_answer(visitor, f.handed, f.funcidx, f.replaced) && answered(
        visitor,
        f.funcidx,
        f.taken(),
        f.walk,
        f.emptied(),
    )
}

/// What one visit says of the instruction `node` that it stands for, in a
/// walk by `visitor` in the function `funcidx` that came to it beside the
/// module `before`.
#[verifier::opaque]
pub open spec fn visit_of<V: Visitor>(
    visitor: &V,
    funcidx: u32,
    node: Value<InstrV>,
    visit: Visit,
    before: ModuleV,
) -> bool {
    match visit {
        Visit::Leaf(e, m) => nested_body(node.value) is None && instr_answer(
            visitor,
            before,
            funcidx,
            node,
            e,
            m,
        ),
        Visit::Nested(inner) => nested_body(node.value) matches Some(b) && fits(b, inner)
            && answered(visitor, funcidx, b, inner, before),
    }
}

/// Puts the items of `rest` at the end of `out`, the last one first.
fn append_reversed(out: &mut Vec<Value<Instr>>, rest: Vec<Value<Instr>>)
    ensures
        final(out).deep_view() == old(out).deep_view() + rest@.reverse().map_values(
            |n: Value<Instr>| n.deep_view(),
        ),
{
    let ghost start = out.deep_view();
    let mut items = reversed(rest);
    let ghost tail = items.deep_view();
    out.append(&mut items);
    assert(out.deep_view() =~= start + tail);
    assert(tail =~= rest@.reverse().map_values(|n: Value<Instr>| n.deep_view()));
}

/// The instructions that a walk has not come to, which are held the last
/// one first, are the end of the body.
proof fn lemma_rest(nodes: Seq<Value<Instr>>, rest: Seq<Value<Instr>>, done: nat)
    requires
        done + rest.len() == nodes.len(),
        forall|k: int| 0 <= k < rest.len() ==> #[trigger] rest[k] == nodes[nodes.len() - 1 - k],
    ensures
        rest.reverse().map_values(|n: Value<Instr>| n.deep_view()) == nodes.map_values(
            |n: Value<Instr>| n.deep_view(),
        ).subrange(done as int, nodes.len() as int),
{
    assert(rest.reverse().map_values(|n: Value<Instr>| n.deep_view()) =~= nodes.map_values(
        |n: Value<Instr>| n.deep_view(),
    ).subrange(done as int, nodes.len() as int));
}

/// Visits that each say of their instruction what `visit_of` asks, and
/// that end at the first at which the visitor asked to stop or at the end
/// of the body, are a walk of the body that holds answers of the visitor.
proof fn lemma_walk<V: Visitor>(
    visitor: &V,
    funcidx: u32,
    body: Seq<Value<InstrV>>,
    walk: Seq<Visit>,
    start: ModuleV,
)
    requires
        walk.len() <= body.len(),
        walk.len() < body.len() ==> walk.len() > 0 && (walk.last() matches Visit::Leaf(e, _)
            && e.stop),
        forall|k: int|
            0 <= k < walk.len() ==> visit_of(
                visitor,
                funcidx,
                body[k],
                #[trigger] walk[k],
                left_by(walk, k as nat, start),
            ) && ((walk[k] matches Visit::Leaf(e, _) && e.stop) ==> k + 1 == walk.len()),
    ensures
        fits(body, walk),
        answered(visitor, funcidx, body, walk, start),
{
    reveal(visit_of);
    assert forall|k: int| 0 <= k < walk.len() implies match #[trigger] walk[k] {
        Visit::Nested(inner) => nested_body(body[k].value) matches Some(b) && fits(b, inner),
        Visit::Leaf(e, _) => nested_body(body[k].value) is None && (e.stop ==> k + 1
            == walk.len()),
    } by {
        assert(visit_of(visitor, funcidx, body[k], walk[k], left_by(walk, k as nat, start)));
    }
    assert forall|k: int| 0 <= k < walk.len() && k < body.len() implies match #[trigger] walk[k] {
        Visit::Leaf(e, m) => instr_answer(
            visitor,
            left_by(walk, k as nat, start),
            funcidx,
            body[k],
            e,
            m,
        ),
        Visit::Nested(inner) => match nested_body(body[k].value) {
            Some(b) => answered(visitor, funcidx, b, inner, left_by(walk, k as nat, start)),
            None => true,
        },
    } by {
        assert(visit_of(visitor, funcidx, body[k], walk[k], left_by(walk, k as nat, start)));
    }
}

/// Hands the instruction `node` to `visitor` and puts at the end of `out`
/// what the visitor asked for: the instructions to put before it, the
/// instruction or its replacement, the instructions to put after it.
/// Returns the module as the visitor left it, and whether it asked to stop.
fn visit_leaf<V: Visitor>(
    module: WasmModule,
    node: Value<Instr>,
    out: &mut Vec<Value<Instr>>,
    visitor: &V,
    curr_funcidx: u32,
) -> (r: (WasmModule, bool, Ghost<Visit>))
    requires
        nested_body(node.deep_view().value) is None,
    ensures
        final(out).deep_view() == old(out).deep_view() + rewrite_node(node.deep_view(), r.2@),
        visit_of(visitor, curr_funcidx, node.deep_view(), r.2@, module@),
        r.2@ matches Visit::Leaf(e, m) && e.stop == r.1 && m == r.0@,
        keeps_functions(module@, r.0@),
{
    let ghost before_out = out.deep_view();
    let mut ctx = VisitorContext::new(module, &node);
    ctx.curr_funcidx = Some(curr_funcidx);
    let ghost handed = ctx;
    let ctx = ask_instr(visitor, ctx);
    let ghost edit = ctx.edit();
    proof {
        reveal(instr_answer);
        reveal(visit_of);
    }
    assert(call_ensures(ask_instr::<V>, (visitor, handed), ctx));
    let VisitorContext {
        module,
        insert_nodes_after,
        insert_nodes_before,
        replace_node,
        curr_funcidx: _,
        node: _,
        traverse_stop,
    } = ctx;
    append_nodes(out, insert_nodes_before);
    let ghost mid = out.deep_view();
    match replace_node {
        Some(r) => {
            out.push(r);
        },
        None => {
            out.push(node);
        },
    }
    assert(out.deep_view() =~= mid.push(
        match edit.replace {
            Some(r) => r,
            None => node.deep_view(),
        },
    ));
    append_nodes(out, insert_nodes_after);
    let ghost visit = Visit::Leaf(edit, module@);
    assert(out.deep_view() =~= before_out + rewrite_node(node.deep_view(), visit));
    (module, traverse_stop, Ghost(visit))
}

/// Walks the instruction `node`: the body of a structured instruction is
/// walked, any other instruction is handed to `visitor`. What takes the
/// place of the instruction is put at the end of `out`. Returns the module
/// as the visitor left it, and whether it asked to stop.
fn visit_node<V: Visitor>(
    module: WasmModule,
    node: Value<Instr>,
    out: &mut Vec<Value<Instr>>,
    visitor: &V,
    curr_funcidx: u32,
) -> (r: (WasmModule, bool, Ghost<Visit>))
    ensures
        final(out).deep_view() == old(out).deep_view() + rewrite_node(node.deep_view(), r.2@),
        visit_of(visitor, curr_funcidx, node.deep_view(), r.2@, module@),
        r.1 <==> (r.2@ matches Visit::Leaf(e, _) && e.stop),
        r.0@ == left_by(seq![r.2@], 1, module@),
        keeps_functions(module@, r.0@),
    decreases node, 0nat,
{
    let ghost before_out = out.deep_view();
    let ghost start = module@;
    let ghost whole = node.deep_view();
    proof {
        lemma_instr_view(node.value);
        reveal(visit_of);
    }
    let Value { value, start_offset, end_offset } = node;
    match value {
        Instr::Block(t, inner) => {
            proof {
                lemma_expr_view(inner);
            }
            let Value { value: inner_nodes, start_offset: s, end_offset: e } = inner;
            let (m, new_nodes, log) = visit_expr(module, inner_nodes, visitor, curr_funcidx);
            let new_value = Instr::Block(t, Value { value: new_nodes, start_offset: s, end_offset: e });
            proof {
                lemma_instr_view(new_value);
                lemma_left_by_one(Visit::Nested(log@), start);
            }
            out.push(Value { value: new_value, start_offset, end_offset });
            assert(out.deep_view() =~= before_out + rewrite_node(whole, Visit::Nested(log@)));
            (m, false, Ghost(Visit::Nested(log@)))
        },
        Instr::Loop(t, inner) => {
            proof {
                lemma_expr_view(inner);
            }
            let Value { value: inner_nodes, start_offset: s, end_offset: e } = inner;
            let (m, new_nodes, log) = visit_expr(module, inner_nodes, visitor, curr_funcidx);
            let new_value = Instr::Loop(t, Value { value: new_nodes, start_offset: s, end_offset: e });
            proof {
                lemma_instr_view(new_value);
                lemma_left_by_one(Visit::Nested(log@), start);
            }
            out.push(Value { value: new_value, start_offset, end_offset });
            assert(out.deep_view() =~= before_out + rewrite_node(whole, Visit::Nested(log@)));
            (m, false, Ghost(Visit::Nested(log@)))
        },
        Instr::If(t, inner) => {
            proof {
                lemma_expr_view(inner);
            }
            let Value { value: inner_nodes, start_offset: s, end_offset: e } = inner;
            let (m, new_nodes, log) = visit_expr(module, inner_nodes, visitor, curr_funcidx);
            let new_value = Instr::If(t, Value { value: new_nodes, start_offset: s, end_offset: e });
            proof {
                lemma_instr_view(new_value);
                lemma_left_by_one(Visit::Nested(log@), start);
            }
            out.push(Value { value: new_value, start_offset, end_offset });
            assert(out.deep_view() =~= before_out + rewrite_node(whole, Visit::Nested(log@)));
            (m, false, Ghost(Visit::Nested(log@)))
        },
        value => {
            let node = Value { value, start_offset, end_offset };
            let r = visit_leaf(module, node, out, visitor, curr_funcidx);
            proof {
                lemma_left_by_one(r.2@, start);
            }
            r
        },
    }
}

/// Walks the instructions of `expr` in order. A structured instruction has
/// its body walked in the same way; any other is handed to `visitor`, and
/// what the visitor asks for is done around it: the instructions to put
/// before it, the instruction or its replacement, the instructions to put
/// after it. Once the visitor asks to stop, the rest of the body is left as
/// it is. Returns the module as the visitor left it, the new body, and the
/// walk: what the visitor asked for at each instruction.
pub fn visit_expr<V: Visitor>(
    module: WasmModule,
    expr: Vec<Value<Instr>>,
    visitor: &V,
    curr_funcidx: u32,
) -> (r: (WasmModule, Vec<Value<Instr>>, Ghost<Seq<Visit>>))
    ensures
        fits(expr.deep_view(), r.2@),
        answered(visitor, curr_funcidx, expr.deep_view(), r.2@, module@),
        r.0@ == left_by(r.2@, r.2@.len(), module@),
        r.1.deep_view() == rewrite_body(expr.deep_view(), r.2@),
        keeps_functions(module@, r.0@),
    decreases expr, 1nat,
{
    let ghost body = expr.deep_view();
    let ghost nodes = expr@;
    let total = expr.len();
    let mut rest = reversed(expr);
    let ghost start = module@;
    let mut module = module;
    let mut out: Vec<Value<Instr>> = Vec::new();
    let ghost mut walk: Seq<Visit> = Seq::empty();
    let mut stopped = false;
    assert(out.deep_view() =~= rewrite_prefix(body, walk, 0));
    while rest.len() > 0 && !stopped
        invariant
            body == nodes.map_values(|n: Value<Instr>| n.deep_view()),
            nodes.len() == total,
            rest@.len() <= total,
            walk.len() + rest@.len() == total,
            forall|k: int| 0 <= k < rest@.len() ==> #[trigger] rest@[k] == nodes[total - 1 - k],
            out.deep_view() == rewrite_prefix(body, walk, walk.len()),
            forall|k: int|
                0 <= k < walk.len() ==> visit_of(
                    visitor,
                    curr_funcidx,
                    body[k],
                    #[trigger] walk[k],
                    left_by(walk, k as nat, start),
                ) && ((walk[k] matches Visit::Leaf(e, _) && e.stop) ==> k + 1 == walk.len()),
            stopped <==> walk.len() > 0 && (walk.last() matches Visit::Leaf(e, _) && e.stop),
            keeps_functions(start, module@),
            module@ == left_by(walk, walk.len(), start),
            decreases_to!(expr => nodes),
        decreases rest@.len(),
    {
        let ghost i = walk.len() as int;
        let node = rest.pop().unwrap();
        assert(node == nodes[i]);
        assert(body[i] == node.deep_view());
        let (m, stop, visit) = visit_node(module, node, &mut out, visitor, curr_funcidx);
        module = m;
        stopped = stop;
        proof {
            lemma_rewrite_prefix_push(body, walk, visit@, walk.len());
            assert forall|k: nat| k <= walk.len() implies #[trigger] left_by(
                walk.push(visit@),
                k,
                start,
            ) == left_by(walk, k, start) by {
                lemma_left_by_push(walk, visit@, k, start);
            }
            lemma_left_by_last(walk, visit@, start);
            walk = walk.push(visit@);
        }
    }
    let ghost left = rest@;
    append_reversed(&mut out, rest);
    proof {
        lemma_rest(nodes, left, walk.len());
        lemma_walk(visitor, curr_funcidx, body, walk, start);
    }
    (module, out, Ghost(walk))
}

/// The nodes of `groups`, the last group first.
pub open spec fn drained<T>(groups: Seq<Vec<T>>) -> Seq<T>
    decreases groups.len(),
{
    if groups.len() == 0 {
        Seq::empty()
    } else {
        groups.last()@ + drained(groups.drop_last())
    }
}

/// Moves the nodes of `groups` to the end of `content`, the last group
/// first.
pub fn drain_into<T>(content: &mut Vec<T>, groups: Vec<Vec<T>>)
    ensures
        final(content)@ == old(content)@ + drained(groups@),
{
    let mut groups = groups;
    let ghost all = groups@;
    assert(content@ =~= old(content)@ + Seq::<T>::empty());
    while groups.len() > 0
        invariant
            old(content)@ + drained(all) == content@ + drained(groups@),
        decreases groups@.len(),
    {
        let ghost before = groups@;
        let ghost c = content@;
        let mut group = groups.pop().unwrap();
        assert(groups@ =~= before.drop_last());
        content.append(&mut group);
        assert(c + (before.last()@ + drained(before.drop_last())) =~= (c + before.last()@)
            + drained(before.drop_last()));
    }
    assert(content@ + drained(groups@) =~= content@);
}

/// Hands the function section of `ctx` to `visitor`, and returns the context as
/// the visitor left it: the two are a call of this visitor's
/// `visit_func_section`, of which all holds that the visitor ensures.
pub fn ask_func_section<'a, V: Visitor>(visitor: &V, ctx: VisitorContext<'a, Vec<u32>>) -> (r:
    VisitorContext<'a, Vec<u32>>)
    ensures
        r.module == ctx.module,
        exists|g: &mut VisitorContext<'a, Vec<u32>>|
            *g == ctx && *final(g) == r && call_ensures(V::visit_func_section, (visitor, g), ()),
{
    let mut ctx = ctx;
    visitor.visit_func_section(&mut ctx);
    ctx
}

/// Hands the import section of `ctx` to `visitor`, and returns the context as
/// the visitor left it: the two are a call of this visitor's
/// `visit_import_section`, of which all holds that the visitor ensures.
pub fn ask_import_section<'a, V: Visitor>(visitor: &V, ctx: VisitorContext<'a, Vec<Import>>) -> (r:
    VisitorContext<'a, Vec<Import>>)
    ensures
        r.module == ctx.module,
        exists|g: &mut VisitorContext<'a, Vec<Import>>|
            *g == ctx && *final(g) == r && call_ensures(V::visit_import_section, (visitor, g), ()),
{
    let mut ctx = ctx;
    visitor.visit_import_section(&mut ctx);
    ctx
}

/// Hands the data section of `ctx` to `visitor`, and returns the context as
/// the visitor left it: the two are a call of this visitor's
/// `visit_data_section`, of which all holds that the visitor ensures.
pub fn ask_data_section<'a, V: Visitor>(visitor: &V, ctx: VisitorContext<'a, Vec<DataSegment>>) -> (r:
    VisitorContext<'a, Vec<DataSegment>>)
    ensures
        r.module == ctx.module,
        exists|g: &mut VisitorContext<'a, Vec<DataSegment>>|
            *g == ctx && *final(g) == r && call_ensures(V::visit_data_section, (visitor, g), ()),
{
    let mut ctx = ctx;
    visitor.visit_data_section(&mut ctx);
    ctx
}

/// Hands the code section of `ctx` to `visitor`, and returns the context as
/// the visitor left it: the two are a call of this visitor's
/// `visit_code_section`, of which all holds that the visitor ensures.
pub fn ask_code_section<'a, V: Visitor>(visitor: &V, ctx: VisitorContext<'a, Vec<Code>>) -> (r:
    VisitorContext<'a, Vec<Code>>)
    ensures
        r.module == ctx.module,
        exists|g: &mut VisitorContext<'a, Vec<Code>>|
            *g == ctx && *final(g) == r && call_ensures(V::visit_code_section, (visitor, g), ()),
{
    let mut ctx = ctx;
    visitor.visit_code_section(&mut ctx);
    ctx
}

/// The views of the nodes of `groups`, the last group first.
pub open spec fn asked<T: DeepView>(groups: Seq<Vec<T>>) -> Seq<T::V> {
    drained(groups).map_values(|x: T| x.deep_view())
}

/// Whether `visitor`, handed `section` beside `module`, can ask for `added`
/// to be added to it. A section that is not handed to the visitor as a
/// whole has nothing added.
#[verifier::opaque]
pub open spec fn section_answer<V: Visitor>(
    visitor: &V,
    module: ModuleV,
    section: SectionV,
    added: Added,
) -> bool {
    match section {
        SectionV::Func(_, content) => exists|
            ctx: VisitorContext<Vec<u32>>,
            out: VisitorContext<Vec<u32>>,
        |
            #[trigger] call_ensures(ask_func_section::<V>, (visitor, ctx), out) && ctx.is_new()
                && ctx.module@ == module && ctx.node@ == content && added == Added::Funcs(
                drained(out.insert_nodes_after@),
            ),
        SectionV::Import(_, content) => exists|
            ctx: VisitorContext<Vec<Import>>,
            out: VisitorContext<Vec<Import>>,
        |
            #[trigger] call_ensures(ask_import_section::<V>, (visitor, ctx), out) && ctx.is_new()
                && ctx.module@ == module && ctx.node.deep_view() == content && added
                == Added::Imports(asked(out.insert_nodes_after@.reverse())),
        SectionV::Data(_, content) => exists|
            ctx: VisitorContext<Vec<DataSegment>>,
            out: VisitorContext<Vec<DataSegment>>,
        |
            #[trigger] call_ensures(ask_data_section::<V>, (visitor, ctx), out) && ctx.is_new()
                && ctx.module@ == module && ctx.node.deep_view() == content && added
                == Added::Data(asked(out.insert_nodes_after@)),
        SectionV::Code(_, content) => exists|
            ctx: VisitorContext<Vec<Code>>,
            out: VisitorContext<Vec<Code>>,
        |
            #[trigger] call_ensures(ask_code_section::<V>, (visitor, ctx), out) && ctx.is_new()
                && ctx.module@ == module && ctx.node.deep_view() == content.value && added
                == Added::Codes(asked(out.insert_nodes_after@)),
        _ => added == Added::Nothing,
    }
}

/// Hands the section `j` of `module` to `visitor`: once as a whole where it
/// holds functions, imports, bodies or data, node by node where it holds
/// types, tables, exports or elements. The nodes that the visitor asks to
/// put after the section are added at its end: for imports in the order in
/// which they were asked for, else the last one first. Returns the module
/// and what was added.
pub fn visit_section<V: Visitor>(module: WasmModule, j: usize, visitor: &V) -> (r: (
    WasmModule,
    Ghost<Added>,
))
    requires
        j < module.inner.sections@.len(),
    ensures
        r.0@.sections.len() == module@.sections.len(),
        forall|q: int|
            0 <= q < r.0@.sections.len() && q != j ==> #[trigger] r.0@.sections[q]
                == module@.sections[q],
        r.0@.sections[j as int].value == with_added(module@.sections[j as int].value, r.1@),
        section_answer(visitor, module@, module@.sections[j as int].value, r.1@),
        r.0@.sections[j as int].start_offset == module@.sections[j as int].start_offset,
        r.0@.sections[j as int].end_offset == module@.sections[j as int].end_offset,
{
    let ghost before = module@;
    assert(before.sections[j as int] == module.inner.sections@[j as int].deep_view());
    proof {
        reveal(section_answer);
    }
    match module.inner.sections[j].value.kind() {
        SectionKind::Func => {
            let nodes = match &module.inner.sections[j].value {
                Section::Func(_, content) => slice_to_vec(content.as_slice()),
                _ => Vec::new(),
            };
            let ctx = VisitorContext::new(module, &nodes);
            let ghost handed = ctx;
            let ctx = ask_func_section(visitor, ctx);
            assert(call_ensures(ask_func_section::<V>, (visitor, handed), ctx));
            let VisitorContext { module: m, insert_nodes_after, .. } = ctx;
            let mut module = m;
            let ghost added = Added::Funcs(drained(insert_nodes_after@));
            match &mut module.inner.sections[j].value {
                Section::Func(_, content) => {
                    drain_into(content, insert_nodes_after);
                },
                _ => {},
            }
            assert(module@.sections[j as int] == module.inner.sections@[j as int].deep_view());
            assert forall|q: int| 0 <= q < module@.sections.len() && q != j implies (
            #[trigger] module@.sections[q]) == before.sections[q] by {
                assert(module@.sections[q] == module.inner.sections@[q].deep_view());
            }
            (module, Ghost(added))
        },
        SectionKind::Import => {
            let nodes = match &module.inner.sections[j].value {
                Section::Import(_, content) => content.clone(),
                _ => Vec::new(),
            };
            let ctx = VisitorContext::new(module, &nodes);
            let ghost handed = ctx;
            let ctx = ask_import_section(visitor, ctx);
            assert(call_ensures(ask_import_section::<V>, (visitor, handed), ctx));
            let VisitorContext { module: m, insert_nodes_after, .. } = ctx;
            let mut module = m;
            let ghost added = Added::Imports(asked(insert_nodes_after@.reverse()));
            match &mut module.inner.sections[j].value {
                Section::Import(_, content) => {
                    let ghost d = content.deep_view();
                    drain_into(content, reversed(insert_nodes_after));
                    assert(content.deep_view() =~= d + asked(insert_nodes_after@.reverse()));
                },
                _ => {},
            }
            assert(module@.sections[j as int] == module.inner.sections@[j as int].deep_view());
            assert forall|q: int| 0 <= q < module@.sections.len() && q != j implies (
            #[trigger] module@.sections[q]) == before.sections[q] by {
                assert(module@.sections[q] == module.inner.sections@[q].deep_view());
            }
            (module, Ghost(added))
        },
        SectionKind::Data => {
            let nodes = match &module.inner.sections[j].value {
                Section::Data(_, content) => content.clone(),
                _ => Vec::new(),
            };
            let ctx = VisitorContext::new(module, &nodes);
            let ghost handed = ctx;
            let ctx = ask_data_section(visitor, ctx);
            assert(call_ensures(ask_data_section::<V>, (visitor, handed), ctx));
            let VisitorContext { module: m, insert_nodes_after, .. } = ctx;
            let mut module = m;
            let ghost added = Added::Data(asked(insert_nodes_after@));
            match &mut module.inner.sections[j].value {
                Section::Data(_, content) => {
                    let ghost d = content.deep_view();
                    drain_into(content, insert_nodes_after);
                    assert(content.deep_view() =~= d + asked(insert_nodes_after@));
                },
                _ => {},
            }
            assert(module@.sections[j as int] == module.inner.sections@[j as int].deep_view());
            assert forall|q: int| 0 <= q < module@.sections.len() && q != j implies (
            #[trigger] module@.sections[q]) == before.sections[q] by {
                assert(module@.sections[q] == module.inner.sections@[q].deep_view());
            }
            (module, Ghost(added))
        },
        SectionKind::Code => {
            let nodes = match &module.inner.sections[j].value {
                Section::Code(_, content) => content.value.clone(),
                _ => Vec::new(),
            };
            let ctx = VisitorContext::new(module, &nodes);
            let ghost handed = ctx;
            let ctx = ask_code_section(visitor, ctx);
            assert(call_ensures(ask_code_section::<V>, (visitor, handed), ctx));
            let VisitorContext { module: m, insert_nodes_after, .. } = ctx;
            let mut module = m;
            let ghost added = Added::Codes(asked(insert_nodes_after@));
            match &mut module.inner.sections[j].value {
                Section::Code(_, content) => {
                    let ghost d = content.value.deep_view();
                    drain_into(&mut content.value, insert_nodes_after);
                    assert(content.value.deep_view() =~= d + asked(insert_nodes_after@));
                },
                _ => {},
            }
            assert(module@.sections[j as int] == module.inner.sections@[j as int].deep_view());
            assert forall|q: int| 0 <= q < module@.sections.len() && q != j implies (
            #[trigger] module@.sections[q]) == before.sections[q] by {
                assert(module@.sections[q] == module.inner.sections@[q].deep_view());
            }
            (module, Ghost(added))
        },
        SectionKind::Type => {
            let nodes = match &module.inner.sections[j].value {
                Section::Type(_, content) => content.clone(),
                _ => Vec::new(),
            };
            let mut module = module;
            let mut typeidx: usize = 0;
            while typeidx < nodes.len() && typeidx <= 0xffff_ffff
                invariant
                    module@ == before,
                decreases nodes.len() - typeidx,
            {
                let mut ctx = VisitorContext::new(module, &nodes[typeidx]);
                visitor.visit_type(&mut ctx, typeidx as u32);
                let VisitorContext { module: m, .. } = ctx;
                module = m;
                typeidx += 1;
            }
            (module, Ghost(Added::Nothing))
        },
        SectionKind::Table => {
            let nodes = match &module.inner.sections[j].value {
                Section::Table(_, content) => content.clone(),
                _ => Vec::new(),
            };
            let mut module = module;
            let mut k: usize = 0;
            while k < nodes.len()
                invariant
                    module@ == before,
                decreases nodes.len() - k,
            {
                let mut ctx = VisitorContext::new(module, &nodes[k]);
                visitor.visit_table(&mut ctx);
                let VisitorContext { module: m, .. } = ctx;
                module = m;
                k += 1;
            }
            (module, Ghost(Added::Nothing))
        },
        SectionKind::Export => {
            let nodes = match &module.inner.sections[j].value {
                Section::Export(_, content) => content.clone(),
                _ => Vec::new(),
            };
            let mut module = module;
            let mut k: usize = 0;
            while k < nodes.len()
                invariant
                    module@ == before,
                decreases nodes.len() - k,
            {
                let mut ctx = VisitorContext::new(module, &nodes[k]);
                visitor.visit_export(&mut ctx);
                let VisitorContext { module: m, .. } = ctx;
                module = m;
                k += 1;
            }
            (module, Ghost(Added::Nothing))
        },
        SectionKind::Element => {
            let nodes = match &module.inner.sections[j].value {
                Section::Element(_, content) => content.clone(),
                _ => Vec::new(),
            };
            let mut module = module;
            let mut k: usize = 0;
            while k < nodes.len()
                invariant
                    module@ == before,
                decreases nodes.len() - k,
            {
                let mut ctx = VisitorContext::new(module, &nodes[k]);
                visitor.visit_element(&mut ctx);
                let VisitorContext { module: m, .. } = ctx;
                module = m;
                k += 1;
            }
            (module, Ghost(Added::Nothing))
        },
        _ => (module, Ghost(Added::Nothing)),
    }
}

/// What a pass did: what it added to each section, the module as it was
/// once the sections had been handed to the visitor and before the
/// functions were, and what happened at each function that has a body, in
/// the order of their indices.
pub struct TraverseLog {
    pub added: Seq<Added>,
    pub walked: ModuleV,
    pub functions: Seq<FunctionVisit>,
}

impl TraverseLog {
    /// The indices of the functions that were handed to the visitor, in
    /// order.
    pub open spec fn visited(self) -> Seq<u32> {
        Seq::new(self.functions.len(), |k: int| self.functions[k].funcidx)
    }
}

/// Whether `log` is a pass of `visitor` over the module `before` that left
/// the module `after`: each section was handed to the visitor beside the
/// module as the sections before it had left it, and what the visitor
/// asked for was added; then each function with a body was handed to it,
/// in the order of the indices, beside the module as the function before
/// it had left it.
pub open spec fn pass_of<V: Visitor>(
    visitor: &V,
    before: ModuleV,
    log: TraverseLog,
    after: ModuleV,
) -> bool {
    &&& log.added.len() == before.sections.len()
    &&& forall|j: int|
        0 <= j < log.added.len() ==> section_answer(
            visitor,
            module_with_added(before, log.added.take(j)),
            before.sections[j].value,
            #[trigger] log.added[j],
        )
    &&& log.walked == module_with_added(before, log.added)
    &&& log.visited() == log.walked.function_indices()
    &&& chained(log.walked, log.functions)
    &&& forall|k: int|
        0 <= k < log.functions.len() ==> function_answered(visitor, #[trigger] log.functions[k])
    &&& after == after_functions(log.walked, log.functions, log.functions.len())
}

/// Hands every section of `module` to `visitor`, in order, and adds the
/// nodes that it asks for; then hands it each function that has a body, in
/// the order of their indices: first the function, then its instructions,
/// and does the edits that the visitor asks for at each.
pub fn traverse<V: Visitor>(module: &mut Module, visitor: &V) -> (log: Ghost<TraverseLog>)
    ensures
        pass_of(visitor, old(module).deep_view(), log@, final(module).deep_view()),
        keeps_functions(log@.walked, final(module).deep_view()),
{
    let mut taken = Module { sections: Vec::new() };
    core::mem::swap(module, &mut taken);
    let mut wasm = WasmModule::new(taken);
    let ghost start = wasm@;
    let ghost mut added: Seq<Added> = Seq::empty();
    let count = wasm.inner.sections.len();
    let mut j: usize = 0;
    while j < count
        invariant
            j <= count,
            count == wasm.inner.sections@.len(),
            count == start.sections.len(),
            added.len() == j,
            forall|q: int|
                0 <= q < j ==> (#[trigger] wasm@.sections[q]).value == with_added(
                    start.sections[q].value,
                    added[q],
                ) && wasm@.sections[q].start_offset == start.sections[q].start_offset
                    && wasm@.sections[q].end_offset == start.sections[q].end_offset,
            forall|q: int| j <= q < count ==> #[trigger] wasm@.sections[q] == start.sections[q],
            forall|q: int|
                0 <= q < j ==> section_answer(
                    visitor,
                    module_with_added(start, added.take(q)),
                    start.sections[q].value,
                    #[trigger] added[q],
                ),
        decreases count - j,
    {
        let ghost before = wasm@;
        let ghost so_far = added;
        let (m, one) = visit_section(wasm, j, visitor);
        wasm = m;
        proof {
            added = added.push(one@);
            assert(before.sections =~= module_with_added(start, so_far).sections);
            assert(added.take(j as int) =~= so_far);
            assert forall|q: int| 0 <= q < j implies section_answer(
                visitor,
                module_with_added(start, added.take(q)),
                start.sections[q].value,
                #[trigger] added[q],
            ) by {
                assert(added.take(q) =~= so_far.take(q));
                assert(added[q] == so_far[q]);
            }
            assert forall|q: int| 0 <= q < j + 1 implies (#[trigger] wasm@.sections[q]).value
                == with_added(start.sections[q].value, added[q]) && wasm@.sections[q].start_offset
                == start.sections[q].start_offset && wasm@.sections[q].end_offset
                == start.sections[q].end_offset by {
                if q != j {
                    assert(wasm@.sections[q] == before.sections[q]);
                }
            }
            assert forall|q: int| j + 1 <= q < count implies #[trigger] wasm@.sections[q]
                == start.sections[q] by {
                assert(wasm@.sections[q] == before.sections[q]);
            }
        }
        j += 1;
    }
    let ghost walked = wasm@;
    assert(walked.sections =~= module_with_added(start, added).sections);
    let first = wasm.imported_func_types().len();
    let bodies = wasm.codes().len();
    let ghost mut functions: Seq<FunctionVisit> = Seq::empty();
    let mut i: usize = 0;
    proof {
        lemma_after_functions(walked, functions, 0);
    }
    while i < bodies && first <= 0xffff_ffff && i <= 0xffff_ffff - first
        invariant
            i <= bodies,
            first == walked.func_import_count(),
            bodies == walked.codes().len(),
            keeps_functions(walked, wasm@),
            i > 0 ==> first + i <= 0x1_0000_0000,
            functions.len() == i,
            forall|k: int| 0 <= k < i ==> (#[trigger] functions[k]).funcidx == (first + k) as u32,
            chained(walked, functions),
            forall|k: int|
                0 <= k < functions.len() ==> function_answered(visitor, #[trigger] functions[k]),
            wasm@ == after_functions(walked, functions, functions.len()),
        decreases bodies - i,
    {
        let funcidx = (first + i) as u32;
        let ghost before = functions;
        let (m, visit) = visit_function(wasm, funcidx, visitor);
        wasm = m;
        proof {
            lemma_chained_push(walked, functions, visit@);
            functions = functions.push(visit@);
        }
        i += 1;
    }
    let ghost log = TraverseLog { added, walked, functions };
    proof {
        assert(log.visited().len() == walked.function_indices().len());
        assert(log.visited() =~= walked.function_indices());
    }
    *module = wasm.into_inner();
    Ghost(log)
}

/// Hands the function `funcidx` to `visitor`, puts the body that it asks
/// for in its place, then walks its instructions. Returns the module and
/// what happened.
pub fn visit_function<V: Visitor>(module: WasmModule, funcidx: u32, visitor: &V) -> (r: (
    WasmModule,
    Ghost<FunctionVisit>,
))
    requires
        module@.has_code(funcidx as int),
    ensures
        r.1@.funcidx == funcidx,
        r.1@.handed == module@,
        fits(r.1@.taken(), r.1@.walk),
        r.1@.left == left_by(r.1@.walk, r.1@.walk.len(), r.1@.emptied()),
        function_answered(visitor, r.1@),
        r.0@ == r.1@.done(),
        keeps_functions(module@, r.0@),
{
    let ghost start = module@;
    let node = match module.get_code(funcidx) {
        Some(code) => code.clone(),
        None => Code { size: Value::new(0), locals: Vec::new(), body: Value::new(Vec::new()) },
    };
    let ctx = VisitorContext::new(module, &node);
    let ghost handed = ctx;
    let ctx = ask_code(visitor, ctx, funcidx);
    proof {
        reveal(code_answer);
    }
    assert(call_ensures(ask_code::<V>, (visitor, handed, funcidx), ctx));
    let VisitorContext { module: m, replace_node, .. } = ctx;
    let mut module = m;
    let ghost replaced = replace_node.deep_view();
    match replace_node {
        Some(code) => {
            proof {
                lemma_with_code(module@, funcidx as int, code.deep_view());
            }
            module.replace_code(funcidx, code);
        },
        None => {},
    }
    let ghost entered = module@;
    let nodes = match module.take_body(funcidx) {
        Some(nodes) => nodes,
        None => Vec::new(),
    };
    proof {
        lemma_with_code(
            entered,
            funcidx as int,
            CodeV {
                size: entered.code(funcidx as int).size,
                locals: entered.code(funcidx as int).locals,
                body: Value {
                    value: Seq::empty(),
                    start_offset: entered.code(funcidx as int).body.start_offset,
                    end_offset: entered.code(funcidx as int).body.end_offset,
                },
            },
        );
    }
    let (m, new_nodes, walk) = visit_expr(module, nodes, visitor, funcidx);
    let mut module = m;
    let ghost left = module@;
    proof {
        lemma_with_code(
            left,
            funcidx as int,
            CodeV {
                size: left.code(funcidx as int).size,
                locals: left.code(funcidx as int).locals,
                body: Value {
                    value: new_nodes.deep_view(),
                    start_offset: left.code(funcidx as int).body.start_offset,
                    end_offset: left.code(funcidx as int).body.end_offset,
                },
            },
        );
    }
    module.put_body(funcidx, new_nodes);
    (module, Ghost(FunctionVisit { funcidx, handed: start, replaced, walk: walk@, left }))
}

impl WasmModule {
    /// The function names of the `name` section, or no names where the
    /// module has none.
    pub fn func_names(&self) -> (r: HashMap<u32, String>)
        ensures
            names_view(r) == match self@.func_names() {
                Some(names) => names,
                None => Map::empty(),
            },
    {
        broadcast use vstd::std_specs::hash::group_hash_axioms;

        match self.name_section() {
            Some(k) => match &self.inner.sections[k].value {
                Section::Custom(_, CustomSection::Name(names)) => match &names.func_names {
                    Some(map) => map.clone(),
                    None => {
                        let r: HashMap<u32, String> = HashMap::new();
                        assert(names_view(r) =~= Map::empty());
                        r
                    },
                },
                _ => {
                    let r: HashMap<u32, String> = HashMap::new();
                    assert(names_view(r) =~= Map::empty());
                    r
                },
            },
            None => {
                let r: HashMap<u32, String> = HashMap::new();
                assert(names_view(r) =~= Map::empty());
                r
            },
        }
    }
}

impl WasmModule {
    /// The type of the function `funcidx`, where the module has one for it.
    pub fn func_type(&self, funcidx: u32) -> (r: Option<Type>)
        ensures
            match r {
                Some(t) => self@.has_type(funcidx as int) && t.deep_view() == self@.type_of(
                    funcidx as int,
                ),
                None => !self@.has_type(funcidx as int),
            },
    {
        let imported = self.imported_func_types().len();
        if (funcidx as usize) >= imported && funcidx as usize - imported >= self.funcs().len() {
            return None;
        }
        let typeidx = self.get_func_typeidx(funcidx);
        self.get_type(typeidx)
    }
}

impl WasmModule {
    /// The number of functions with a body.
    pub fn get_code_count(&self) -> (r: usize)
        ensures
            r == self@.codes().len(),
    {
        self.codes().len()
    }
}

/// The number of locals in the first `n` runs of `locals`.
pub open spec fn locals_count(locals: Seq<CodeLocal>, n: nat) -> nat
    decreases n,
{
    if n == 0 || n > locals.len() {
        0
    } else {
        locals_count(locals, (n - 1) as nat) + locals[n - 1].count as nat
    }
}

/// More runs hold no fewer locals.
pub proof fn lemma_locals_count_monotonic(locals: Seq<CodeLocal>, a: nat, b: nat)
    requires
        a <= b <= locals.len(),
    ensures
        locals_count(locals, a) <= locals_count(locals, b),
    decreases b,
{
    if a < b {
        lemma_locals_count_monotonic(locals, a, (b - 1) as nat);
    }
}

} // verus!
