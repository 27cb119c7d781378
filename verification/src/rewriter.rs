//! The pass that makes a module record its stack when it traps: the frames
//! of the functions that are left are written to memory, and the function
//! at the edge of the module writes the coredump.

use crate::ast::{
    BlockType, Code, CodeLocal, CodeV, DataSegment, Global, GlobalType, GlobalV, Import, Instr,
    InstrV, Module, ModuleV, NumType, SectionKind, SectionV, Type, TypeV, Value, ValueType,
    clone_expr, lemma_instr_view,
};
use crate::edits::{
    Added, FunctionVisit, InstrEdit, Visit, after_functions, chained, fits, left_by,
    lemma_after_functions, module_with_added, nested_body, rewrite_body, rewrite_node,
    rewrite_prefix, with_body,
};
use crate::index::{lemma_with_code, lemma_with_code_twice};
use crate::laws::{
    determined, lemma_add_func_local, lemma_add_type_frame, lemma_nothing_added,
    lemma_pass_determined,
};
use crate::parser::{DecodeError, decode_module, parse};
use crate::traverse::{
    TraverseLog, Visitor, VisitorContext, WasmModule, answered, ask_code_section, ask_data_section,
    ask_func_section, ask_import_section, asked, code_answer, drained, function_answered,
    instr_answer, lemma_locals_count_monotonic, locals_count, pass_of, section_answer, traverse,
};
use vstd::prelude::*;
use vstd::slice::slice_to_vec;

verus! {

/// The value of the global that holds the entry function while no exported
/// function has been entered.
pub const NO_ENTRY_FUNCIDX_VALUE: i32 = 0x7fff_ffff;

/// An instruction as it is built in memory, without a place in the input.
pub open spec fn fresh(i: InstrV) -> Value<InstrV> {
    Value { value: i, start_offset: 0, end_offset: 0 }
}

/// A call of the function `funcidx`.
pub open spec fn call_of(funcidx: u32) -> Value<InstrV> {
    fresh(InstrV::Leaf(Instr::call(Value { value: funcidx, start_offset: 0, end_offset: 0 })))
}

/// An `if` without a result, with `body` for its body.
pub open spec fn if_of(body: Seq<Value<InstrV>>) -> Value<InstrV> {
    fresh(InstrV::If(BlockType::Empty, Value { value: body, start_offset: 0, end_offset: 0 }))
}

fn push_instr(out: &mut Vec<Value<Instr>>, i: Instr)
    ensures
        final(out).deep_view() == old(out).deep_view().push(fresh(i.deep_view())),
{
    let ghost before = out.deep_view();
    let node = Value::new(i);
    out.push(node);
    assert(out.deep_view() =~= before.push(node.deep_view()));
}

fn push_call(out: &mut Vec<Value<Instr>>, funcidx: u32)
    ensures
        final(out).deep_view() == old(out).deep_view().push(call_of(funcidx)),
{
    push_instr(out, Instr::call(Value::new(funcidx)));
}

fn push_if(out: &mut Vec<Value<Instr>>, body: Vec<Value<Instr>>)
    ensures
        final(out).deep_view() == old(out).deep_view().push(if_of(body.deep_view())),
{
    let i = Instr::If(BlockType::Empty, Value::new(body));
    proof {
        lemma_instr_view(i);
    }
    push_instr(out, i);
}

fn append_instrs(out: &mut Vec<Value<Instr>>, items: Vec<Value<Instr>>)
    ensures
        final(out).deep_view() == old(out).deep_view() + items.deep_view(),
{
    let ghost start = out.deep_view();
    let ghost all = items.deep_view();
    let mut items = items;
    out.append(&mut items);
    assert(out.deep_view() =~= start + all);
}

/// The locals of a function one by one: each run of `n` locals as `n` runs
/// of one local.
pub open spec fn flattened(locals: Seq<CodeLocal>, n: nat) -> Seq<CodeLocal>
    decreases n,
{
    if n == 0 || n > locals.len() {
        Seq::empty()
    } else {
        flattened(locals, (n - 1) as nat) + Seq::new(
            locals[n - 1].count as nat,
            |i: int| CodeLocal { count: 1, value_type: locals[n - 1].value_type },
        )
    }
}

/// The locals of a function one by one.
pub fn locals_flatten(locals: Vec<CodeLocal>) -> (out: Vec<CodeLocal>)
    ensures
        out@ == flattened(locals@, locals@.len()),
{
    let mut out: Vec<CodeLocal> = Vec::new();
    let mut k: usize = 0;
    assert(out@ =~= flattened(locals@, 0));
    while k < locals.len()
        invariant
            k <= locals.len(),
            out@ == flattened(locals@, k as nat),
        decreases locals.len() - k,
    {
        let local = locals[k];
        let ghost start = out@;
        let mut i: u32 = 0;
        while i < local.count
            invariant
                i <= local.count,
                out@ == start + Seq::new(
                    i as nat,
                    |j: int| CodeLocal { count: 1, value_type: local.value_type },
                ),
            decreases local.count - i,
        {
            out.push(CodeLocal { count: 1, value_type: local.value_type });
            i += 1;
            assert(out@ =~= start + Seq::new(
                i as nat,
                |j: int| CodeLocal { count: 1, value_type: local.value_type },
            ));
        }
        k += 1;
    }
    out
}

/// `s`, then `v`.
pub fn prepend<T>(v: Vec<T>, s: Vec<T>) -> (r: Vec<T>)
    ensures
        r@ == s@ + v@,
{
    let mut tmp = s;
    let mut v = v;
    tmp.append(&mut v);
    tmp
}

/// The pass that gives the functions of the runtime the globals of the
/// module that it is put into.
pub struct RuntimeTransform {
    pub frames_ptr_global: u32,
    pub frames_count_global: u32,
}

impl RuntimeTransform {
    /// What is asked for at `node`: an access to the global 0 or 1 of the
    /// runtime becomes an access to the global that holds the place of the
    /// frames, or their number.
    pub open spec fn replacement(&self, node: InstrV) -> Option<Value<InstrV>> {
        match node {
            InstrV::Leaf(Instr::global_get(g)) => if g == 0 {
                Some(fresh(InstrV::Leaf(Instr::global_get(self.frames_ptr_global))))
            } else if g == 1 {
                Some(fresh(InstrV::Leaf(Instr::global_get(self.frames_count_global))))
            } else {
                None
            },
            InstrV::Leaf(Instr::global_set(g)) => if g == 0 {
                Some(fresh(InstrV::Leaf(Instr::global_set(self.frames_ptr_global))))
            } else if g == 1 {
                Some(fresh(InstrV::Leaf(Instr::global_set(self.frames_count_global))))
            } else {
                None
            },
            _ => None,
        }
    }
}

impl Visitor for RuntimeTransform {
    fn visit_instr<'a>(&self, ctx: &mut VisitorContext<'a, Value<Instr>>)
        ensures
            final(ctx).module == old(ctx).module,
            final(ctx).edit() == (InstrEdit {
                before: Seq::empty(),
                after: Seq::empty(),
                replace: self.replacement(old(ctx).node.value.deep_view()),
                stop: false,
            }),
    {
        proof {
            lemma_instr_view(ctx.node.value);
        }
        assert(ctx.insert_nodes_before.deep_view() =~= Seq::empty());
        assert(ctx.insert_nodes_after.deep_view() =~= Seq::empty());
        match &ctx.node.value {
            Instr::global_get(globalidx) => {
                if *globalidx == 0 {
                    ctx.replace_node(Instr::global_get(self.frames_ptr_global));
                } else if *globalidx == 1 {
                    ctx.replace_node(Instr::global_get(self.frames_count_global));
                }
            },
            Instr::global_set(globalidx) => {
                if *globalidx == 0 {
                    ctx.replace_node(Instr::global_set(self.frames_ptr_global));
                } else if *globalidx == 1 {
                    ctx.replace_node(Instr::global_set(self.frames_count_global));
                }
            },
            _ => {},
        }
    }
}

impl RuntimeTransform {
    /// The instruction `node` as the pass leaves it: an access to a global
    /// of the runtime goes to the global of the module, in the instruction
    /// and in its body.
    pub open spec fn retarget_node(&self, node: Value<InstrV>) -> Value<InstrV>
        decreases node,
    {
        match nested_body(node.value) {
            Some(body) => Value {
                value: with_body(node.value, self.retarget_body(body, body.len())),
                start_offset: node.start_offset,
                end_offset: node.end_offset,
            },
            None => match self.replacement(node.value) {
                Some(r) => r,
                None => node,
            },
        }
    }

    /// The first `n` instructions of `body` as the pass leaves them.
    pub open spec fn retarget_body(&self, body: Seq<Value<InstrV>>, n: nat) -> Seq<Value<InstrV>>
        decreases body, n,
    {
        if n == 0 || n > body.len() {
            Seq::empty()
        } else {
            self.retarget_body(body, (n - 1) as nat).push(self.retarget_node(body[n - 1]))
        }
    }

    /// The module `m` as the pass leaves it once it has gone through the
    /// first `n` of its functions with a body.
    pub open spec fn retargeted(&self, m: ModuleV, n: nat) -> ModuleV
        decreases n,
    {
        if n == 0 {
            m
        } else {
            let before = self.retargeted(m, (n - 1) as nat);
            let funcidx = before.func_import_count() + n - 1;
            let body = before.code(funcidx).body.value;
            before.with_body(funcidx, self.retarget_body(body, body.len()))
        }
    }

    /// A walk of a body by this pass leaves the module as it was and makes,
    /// of the first `n` instructions, what `retarget_body` says; it goes to
    /// the end of the body.
    pub proof fn lemma_walk(
        &self,
        funcidx: u32,
        body: Seq<Value<InstrV>>,
        walk: Seq<Visit>,
        start: ModuleV,
        n: nat,
    )
        requires
            fits(body, walk),
            answered(self, funcidx, body, walk, start),
            n <= walk.len(),
        ensures
            n == walk.len() ==> walk.len() == body.len(),
            rewrite_prefix(body, walk, n) == self.retarget_body(body, n),
            left_by(walk, n, start) == start,
            forall|k: int| 0 <= k < n ==> !(#[trigger] walk[k] matches Visit::Leaf(e, _) && e.stop),
        decreases walk, n,
    {
        if n > 0 {
            self.lemma_walk(funcidx, body, walk, start, (n - 1) as nat);
            let k = n - 1;
            match walk[k] {
                Visit::Leaf(e, m) => {
                    self.lemma_answer(start, funcidx, body[k], e, m);
                    assert(rewrite_node(body[k], walk[k]) =~= seq![self.retarget_node(body[k])]);
                },
                Visit::Nested(inner) => {
                    let b = nested_body(body[k].value).unwrap();
                    self.lemma_walk(funcidx, b, inner, start, inner.len());
                    assert(b.subrange(inner.len() as int, b.len() as int) =~= Seq::empty());
                    assert(rewrite_body(b, inner) =~= self.retarget_body(b, b.len()));
                    assert(rewrite_node(body[k], walk[k]) =~= seq![self.retarget_node(body[k])]);
                },
            }
            assert(rewrite_prefix(body, walk, n) == rewrite_prefix(body, walk, k as nat)
                + rewrite_node(body[k], walk[k]));
            assert(rewrite_prefix(body, walk, n) =~= self.retarget_body(body, n));
        }
        if n == walk.len() && walk.len() < body.len() {
            assert(walk.last() == walk[walk.len() - 1]);
        }
    }

    /// What the pass answers at an instruction.
    pub proof fn lemma_answer(
        &self,
        before: ModuleV,
        funcidx: u32,
        node: Value<InstrV>,
        edit: InstrEdit,
        after: ModuleV,
    )
        requires
            instr_answer(self, before, funcidx, node, edit, after),
        ensures
            after == before,
            edit == (InstrEdit {
                before: Seq::empty(),
                after: Seq::empty(),
                replace: self.replacement(node.value),
                stop: false,
            }),
    {
        reveal(instr_answer);
    }
}

impl RuntimeTransform {
    /// The pass asks for nothing to be put in the place of a function.
    pub proof fn lemma_code_answer(&self, m: ModuleV, funcidx: u32, replaced: Option<CodeV>)
        requires
            code_answer(self, m, funcidx, replaced),
        ensures
            replaced is None,
    {
        reveal(code_answer);
    }

    /// The pass asks for nothing to be added to a section.
    pub proof fn lemma_section_answer(&self, m: ModuleV, section: SectionV, added: Added)
        requires
            section_answer(self, m, section, added),
        ensures
            added.is_empty(),
            match section {
                SectionV::Func(_, _) => added is Funcs,
                SectionV::Import(_, _) => added is Imports,
                SectionV::Data(_, _) => added is Data,
                SectionV::Code(_, _) => added is Codes,
                _ => added is Nothing,
            },
    {
        reveal(section_answer);
        assert(drained(Seq::<Vec<u32>>::empty()) =~= Seq::empty());
        match section {
            SectionV::Func(_, _) => {
                let (ctx, out) = choose|
                    ctx: VisitorContext<Vec<u32>>,
                    out: VisitorContext<Vec<u32>>,
                |
                    #[trigger] call_ensures(ask_func_section::<Self>, (self, ctx), out)
                        && ctx.is_new() && added == Added::Funcs(drained(out.insert_nodes_after@));
                assert(out.insert_nodes_after@.len() == 0);
            },
            SectionV::Import(_, _) => {
                let (ctx, out) = choose|
                    ctx: VisitorContext<Vec<Import>>,
                    out: VisitorContext<Vec<Import>>,
                |
                    #[trigger] call_ensures(ask_import_section::<Self>, (self, ctx), out)
                        && ctx.is_new() && added == Added::Imports(
                        asked(out.insert_nodes_after@.reverse()),
                    );
                assert(out.insert_nodes_after@.reverse().len() == 0);
            },
            SectionV::Data(_, _) => {
                let (ctx, out) = choose|
                    ctx: VisitorContext<Vec<DataSegment>>,
                    out: VisitorContext<Vec<DataSegment>>,
                |
                    #[trigger] call_ensures(ask_data_section::<Self>, (self, ctx), out)
                        && ctx.is_new() && added == Added::Data(asked(out.insert_nodes_after@));
                assert(out.insert_nodes_after@.len() == 0);
            },
            SectionV::Code(_, _) => {
                let (ctx, out) = choose|
                    ctx: VisitorContext<Vec<Code>>,
                    out: VisitorContext<Vec<Code>>,
                |
                    #[trigger] call_ensures(ask_code_section::<Self>, (self, ctx), out)
                        && ctx.is_new() && added == Added::Codes(asked(out.insert_nodes_after@));
                assert(out.insert_nodes_after@.len() == 0);
            },
            _ => {},
        }
    }

    /// The pass answers in one way only.
    pub proof fn lemma_determined(&self)
        ensures
            determined(self),
    {
        reveal(determined);
        assert forall|
            m: ModuleV,
            funcidx: u32,
            node: Value<InstrV>,
            e1: InstrEdit,
            m1: ModuleV,
            e2: InstrEdit,
            m2: ModuleV,
        |
            #[trigger] instr_answer(self, m, funcidx, node, e1, m1) && #[trigger] instr_answer(
                self,
                m,
                funcidx,
                node,
                e2,
                m2,
            ) implies e1 == e2 && m1 == m2 by {
            self.lemma_answer(m, funcidx, node, e1, m1);
            self.lemma_answer(m, funcidx, node, e2, m2);
        }
        assert forall|m: ModuleV, funcidx: u32, r1: Option<CodeV>, r2: Option<CodeV>|
            #[trigger] code_answer(self, m, funcidx, r1) && #[trigger] code_answer(
                self,
                m,
                funcidx,
                r2,
            ) implies r1 == r2 by {
            self.lemma_code_answer(m, funcidx, r1);
            self.lemma_code_answer(m, funcidx, r2);
        }
        assert forall|m: ModuleV, section: SectionV, a1: Added, a2: Added|
            #[trigger] section_answer(self, m, section, a1) && #[trigger] section_answer(
                self,
                m,
                section,
                a2,
            ) implies a1 == a2 by {
            self.lemma_section_answer(m, section, a1);
            self.lemma_section_answer(m, section, a2);
            match (a1, a2) {
                (Added::Funcs(x), Added::Funcs(y)) => {
                    assert(x =~= y);
                },
                (Added::Imports(x), Added::Imports(y)) => {
                    assert(x =~= y);
                },
                (Added::Data(x), Added::Data(y)) => {
                    assert(x =~= y);
                },
                (Added::Codes(x), Added::Codes(y)) => {
                    assert(x =~= y);
                },
                _ => {},
            }
        }
    }

    /// The first `n` functions of a pass leave the module that `retargeted`
    /// says.
    pub proof fn lemma_functions(&self, m: ModuleV, functions: Seq<FunctionVisit>, n: nat)
        requires
            n <= functions.len(),
            functions.len() == m.function_indices().len(),
            forall|k: int|
                0 <= k < functions.len() ==> (#[trigger] functions[k]).funcidx
                    == m.function_indices()[k],
            chained(m, functions),
            forall|k: int|
                0 <= k < functions.len() ==> function_answered(self, #[trigger] functions[k]),
        ensures
            after_functions(m, functions, n) == self.retargeted(m, n),
            self.retargeted(m, n).func_import_count() == m.func_import_count(),
            self.retargeted(m, n).codes().len() == m.codes().len(),
        decreases n,
    {
        if n > 0 {
            let k = n - 1;
            self.lemma_functions(m, functions, k as nat);
            lemma_after_functions(m, functions, k as nat);
            lemma_after_functions(m, functions, n);
            let before = self.retargeted(m, k as nat);
            let f = functions[k];
            assert(function_answered(self, f));
            assert(f.handed == before);
            assert(f.funcidx == before.func_import_count() + k);
            self.lemma_code_answer(f.handed, f.funcidx, f.replaced);
            let body = before.code(f.funcidx as int).body.value;
            assert(f.taken() == body);
            self.lemma_walk(f.funcidx, body, f.walk, f.emptied(), f.walk.len());
            assert(body.subrange(f.walk.len() as int, body.len() as int) =~= Seq::empty());
            assert(rewrite_body(body, f.walk) =~= self.retarget_body(body, body.len()));
            let code = before.code(f.funcidx as int);
            let emptied = CodeV {
                size: code.size,
                locals: code.locals,
                body: Value {
                    value: Seq::empty(),
                    start_offset: code.body.start_offset,
                    end_offset: code.body.end_offset,
                },
            };
            let done = CodeV {
                size: code.size,
                locals: code.locals,
                body: Value {
                    value: self.retarget_body(body, body.len()),
                    start_offset: code.body.start_offset,
                    end_offset: code.body.end_offset,
                },
            };
            lemma_with_code(before, f.funcidx as int, emptied);
            lemma_with_code(before, f.funcidx as int, done);
            lemma_with_code_twice(before, f.funcidx as int, emptied, done);
            assert(f.emptied() == before.with_code(f.funcidx as int, emptied));
            assert(f.emptied().code(f.funcidx as int) == emptied);
            assert(f.done() == f.emptied().with_code(f.funcidx as int, done));
        } else {
            lemma_after_functions(m, functions, 0);
        }
    }

    /// A pass of this visitor leaves the module that `retargeted` says.
    pub proof fn lemma_pass(&self, m: ModuleV, log: TraverseLog, after: ModuleV)
        requires
            pass_of(self, m, log, after),
        ensures
            after == self.retargeted(m, m.function_indices().len()),
    {
        assert forall|j: int| 0 <= j < log.added.len() implies (#[trigger] log.added[j]).is_empty() by {
            self.lemma_section_answer(
                module_with_added(m, log.added.take(j)),
                m.sections[j].value,
                log.added[j],
            );
        }
        lemma_nothing_added(m, log.added);
        assert(log.visited().len() == log.functions.len());
        assert forall|k: int| 0 <= k < log.functions.len() implies (#[trigger] log.functions[k]).funcidx
            == m.function_indices()[k] by {
            assert(log.visited()[k] == log.functions[k].funcidx);
        }
        self.lemma_functions(m, log.functions, log.functions.len());
    }
}

/// The pass that makes a module record its stack.
pub struct CoredumpTransform {
    /// The global that is 1 while the stack is unwound.
    pub is_unwinding: u32,
    /// The global that holds the exported function that was entered.
    pub entry_funcidx: u32,
    /// The function that starts the unwinding.
    pub unreachable_shim: u32,
    /// The function of the runtime that writes the coredump.
    pub write_coredump: u32,
    /// The function of the runtime that starts a frame.
    pub start_frame: u32,
    /// The functions of the runtime that add a value to the frame.
    pub add_i32_local: u32,
    pub add_i64_local: u32,
    pub add_f32_local: u32,
    pub add_f64_local: u32,
    /// Whether loads are checked against the size of the memory.
    pub check_memory_operations: bool,
}

/// The leaf instruction `i` as it is built in memory.
pub open spec fn leaf(i: Instr) -> Value<InstrV> {
    fresh(InstrV::Leaf(i))
}

impl CoredumpTransform {
    /// Whether `funcidx` is one of the functions that the pass added.
    pub open spec fn is_runtime(&self, funcidx: u32) -> bool {
        funcidx == self.unreachable_shim || funcidx == self.write_coredump || funcidx
            == self.start_frame || funcidx == self.add_i32_local || funcidx == self.add_i64_local
            || funcidx == self.add_f32_local || funcidx == self.add_f64_local
    }

    /// The function of the runtime that adds a value of type `t` to the
    /// frame.
    pub open spec fn adder(&self, t: ValueType) -> u32 {
        match t {
            ValueType::NumType(NumType::I32) => self.add_i32_local,
            ValueType::NumType(NumType::I64) => self.add_i64_local,
            ValueType::NumType(NumType::F32) => self.add_f32_local,
            ValueType::NumType(NumType::F64) => self.add_f64_local,
        }
    }

    /// The code that adds the first `n` parameters to the frame.
    pub open spec fn capture_params(&self, params: Seq<ValueType>, n: nat) -> Seq<Value<InstrV>>
        decreases n,
    {
        if n == 0 || n > params.len() {
            Seq::empty()
        } else {
            self.capture_params(params, (n - 1) as nat).push(
                leaf(Instr::local_get((n - 1) as u32)),
            ).push(call_of(self.adder(params[n - 1])))
        }
    }

    /// The code that adds a placeholder to the frame for each of the first
    /// `n` parameters.
    pub open spec fn skip_params(&self, n: nat) -> Seq<Value<InstrV>>
        decreases n,
    {
        if n == 0 {
            Seq::empty()
        } else {
            self.skip_params((n - 1) as nat).push(leaf(Instr::i32_const((669 + (n - 1)) as i64))).push(
                call_of(self.add_i32_local),
            )
        }
    }

    /// The code that adds the first `n` locals to the frame, the first of
    /// which has the index `first`.
    pub open spec fn capture_locals(&self, locals: Seq<CodeLocal>, first: nat, n: nat) -> Seq<
        Value<InstrV>,
    >
        decreases n,
    {
        if n == 0 || n > locals.len() {
            Seq::empty()
        } else {
            self.capture_locals(locals, first, (n - 1) as nat).push(
                leaf(Instr::local_get((first + n - 1) as u32)),
            ).push(call_of(self.adder(locals[n - 1].value_type)))
        }
    }

    /// The code that writes the frame of the function `funcidx`: its index
    /// for its place in the code, the number of its values, and its values:
    /// its parameters, or placeholders for them, and its locals.
    pub open spec fn frame_code(
        &self,
        funcidx: u32,
        params: Seq<ValueType>,
        locals: Seq<CodeLocal>,
        real_params: bool,
    ) -> Seq<Value<InstrV>> {
        seq![
            leaf(Instr::i32_const(funcidx as i64)),
            leaf(Instr::i32_const((locals.len() + params.len()) as i64)),
            call_of(self.start_frame),
        ] + (if real_params {
            self.capture_params(params, params.len())
        } else {
            self.skip_params(params.len())
        }) + self.capture_locals(locals, params.len(), locals.len())
    }
}

/// A constant of each of the first `n` of `results`, to leave on the stack
/// in the place of a result: the number `v`, or the bits of its
/// floating-point form.
pub open spec fn placeholders(results: Seq<ValueType>, n: nat, v: i64, bits32: u32, bits64: u64) -> Seq<
    Value<InstrV>,
>
    decreases n,
{
    if n == 0 || n > results.len() {
        Seq::empty()
    } else {
        placeholders(results, (n - 1) as nat, v, bits32, bits64).push(
            leaf(
                match results[n - 1] {
                    ValueType::NumType(NumType::I32) => Instr::i32_const(v),
                    ValueType::NumType(NumType::I64) => Instr::i64_const(v),
                    ValueType::NumType(NumType::F32) => Instr::f32_const(bits32),
                    ValueType::NumType(NumType::F64) => Instr::f64_const(bits64),
                },
            ),
        )
    }
}

fn push_placeholders(out: &mut Vec<Value<Instr>>, results: &Vec<ValueType>, v: i64, bits32: u32, bits64: u64)
    ensures
        final(out).deep_view() == old(out).deep_view() + placeholders(
            results@,
            results@.len(),
            v,
            bits32,
            bits64,
        ),
{
    let ghost start = out.deep_view();
    let mut k: usize = 0;
    assert(out.deep_view() =~= start + placeholders(results@, 0, v, bits32, bits64));
    while k < results.len()
        invariant
            k <= results.len(),
            out.deep_view() == start + placeholders(results@, k as nat, v, bits32, bits64),
        decreases results.len() - k,
    {
        let i = match results[k] {
            ValueType::NumType(NumType::I32) => Instr::i32_const(v),
            ValueType::NumType(NumType::I64) => Instr::i64_const(v),
            ValueType::NumType(NumType::F32) => Instr::f32_const(bits32),
            ValueType::NumType(NumType::F64) => Instr::f64_const(bits64),
        };
        push_instr(out, i);
        k += 1;
        assert(out.deep_view() =~= start + placeholders(results@, k as nat, v, bits32, bits64));
    }
}

impl CoredumpTransform {
    fn adder_of(&self, t: &ValueType) -> (r: u32)
        ensures
            r == self.adder(*t),
    {
        match t {
            ValueType::NumType(NumType::I32) => self.add_i32_local,
            ValueType::NumType(NumType::I64) => self.add_i64_local,
            ValueType::NumType(NumType::F32) => self.add_f32_local,
            ValueType::NumType(NumType::F64) => self.add_f64_local,
        }
    }

    /// Appends the code that writes the frame of the function `funcidx`.
    pub fn push_frame(
        &self,
        out: &mut Vec<Value<Instr>>,
        funcidx: u32,
        params: &Vec<ValueType>,
        locals: &Vec<CodeLocal>,
        real_params: bool,
    )
        requires
            params@.len() + locals@.len() <= u32::MAX,
        ensures
            final(out).deep_view() == old(out).deep_view() + self.frame_code(
                funcidx,
                params@,
                locals@,
                real_params,
            ),
    {
        let ghost start = out.deep_view();
        push_instr(out, Instr::i32_const(funcidx as i64));
        push_instr(out, Instr::i32_const((locals.len() + params.len()) as i64));
        push_call(out, self.start_frame);
        let ghost head = out.deep_view();
        let mut i: usize = 0;
        if real_params {
            assert(out.deep_view() =~= head + self.capture_params(params@, 0));
            while i < params.len()
                invariant
                    i <= params.len(),
                    params@.len() <= u32::MAX,
                    out.deep_view() == head + self.capture_params(params@, i as nat),
                decreases params.len() - i,
            {
                push_instr(out, Instr::local_get(i as u32));
                push_call(out, self.adder_of(&params[i]));
                i += 1;
                assert(out.deep_view() =~= head + self.capture_params(params@, i as nat));
            }
        } else {
            assert(out.deep_view() =~= head + self.skip_params(0));
            while i < params.len()
                invariant
                    i <= params.len(),
                    params@.len() <= u32::MAX,
                    out.deep_view() == head + self.skip_params(i as nat),
                decreases params.len() - i,
            {
                push_instr(out, Instr::i32_const(669 + i as i64));
                push_call(out, self.add_i32_local);
                i += 1;
                assert(out.deep_view() =~= head + self.skip_params(i as nat));
            }
        }
        let ghost middle = out.deep_view();
        let first = params.len();
        let mut j: usize = 0;
        assert(out.deep_view() =~= middle + self.capture_locals(locals@, first as nat, 0));
        while j < locals.len()
            invariant
                j <= locals.len(),
                first == params@.len(),
                params@.len() + locals@.len() <= u32::MAX,
                out.deep_view() == middle + self.capture_locals(locals@, first as nat, j as nat),
            decreases locals.len() - j,
        {
            push_instr(out, Instr::local_get((first + j) as u32));
            push_call(out, self.adder_of(&locals[j].value_type));
            j += 1;
            assert(out.deep_view() =~= middle + self.capture_locals(
                locals@,
                first as nat,
                j as nat,
            ));
        }
        assert(out.deep_view() =~= start + self.frame_code(funcidx, params@, locals@, real_params));
    }
}

/// The number of locals of `locals`, where it can be told in 32 bits.
pub fn total_locals(locals: &Vec<CodeLocal>) -> (r: Option<u32>)
    ensures
        match r {
            Some(n) => n == locals_count(locals@, locals@.len()),
            None => locals_count(locals@, locals@.len()) > u32::MAX,
        },
{
    let mut count: u32 = 0;
    let mut k: usize = 0;
    while k < locals.len()
        invariant
            k <= locals.len(),
            count == locals_count(locals@, k as nat),
        decreases locals.len() - k,
    {
        if locals[k].count > u32::MAX - count {
            proof {
                lemma_locals_count_monotonic(
                    locals@,
                    (k + 1) as nat,
                    locals@.len(),
                );
            }
            return None;
        }
        count += locals[k].count;
        k += 1;
    }
    Some(count)
}

/// The locals of a function one by one are as many as its runs hold.
pub proof fn lemma_flattened_len(locals: Seq<CodeLocal>, n: nat)
    requires
        n <= locals.len(),
    ensures
        flattened(locals, n).len() == locals_count(locals, n),
    decreases n,
{
    if n > 0 {
        lemma_flattened_len(locals, (n - 1) as nat);
    }
}

impl CoredumpTransform {
    /// Whether the pass rewrites the function `funcidx` of `m`: it has a
    /// body and a type, it is none of the functions of the runtime, and its
    /// parameters and locals have indices of 32 bits.
    pub open spec fn applies(&self, m: ModuleV, funcidx: u32) -> bool {
        &&& !self.is_runtime(funcidx)
        &&& m.has_type(funcidx as int)
        &&& m.has_code(funcidx as int)
        &&& m.type_of(funcidx as int).params.len() + locals_count(
            m.code(funcidx as int).locals,
            m.code(funcidx as int).locals.len(),
        ) <= u32::MAX
    }

    /// The locals of the function `funcidx`, one by one.
    pub open spec fn locals_of(&self, m: ModuleV, funcidx: u32) -> Seq<CodeLocal> {
        flattened(m.code(funcidx as int).locals, m.code(funcidx as int).locals.len())
    }

    /// The code that takes the place of a trap: the unwinding is started,
    /// the frame is written, and a placeholder is left for each result.
    pub open spec fn trap_code(&self, m: ModuleV, funcidx: u32, v: i64, bits32: u32, bits64: u64) -> Seq<
        Value<InstrV>,
    > {
        let t = m.type_of(funcidx as int);
        seq![call_of(self.unreachable_shim)] + self.frame_code(
            funcidx,
            t.params,
            self.locals_of(m, funcidx),
            true,
        ) + placeholders(t.results, t.results.len(), v, bits32, bits64)
    }

    /// What is done where a load is out of bounds: an exported function
    /// writes the coredump and traps, any other starts the unwinding and
    /// returns.
    pub open spec fn fault_branch(&self, m: ModuleV, funcidx: u32) -> Seq<Value<InstrV>> {
        if m.is_exported(funcidx) {
            seq![
                call_of(self.write_coredump),
                leaf(Instr::unreachable),
                leaf(Instr::end),
            ]
        } else {
            self.trap_code(m, funcidx, 667, 0x4426_c000, 0x4084_d800_0000_0000) + seq![
                leaf(Instr::Return),
                leaf(Instr::end),
            ]
        }
    }

    /// The code that checks the address of a load against the size of the
    /// memory, with the address kept in the local `address_local`.
    pub open spec fn load_check(&self, m: ModuleV, funcidx: u32, address_local: u32) -> Seq<
        Value<InstrV>,
    > {
        seq![
            leaf(Instr::local_tee(address_local)),
            leaf(Instr::memory_size(0)),
            leaf(Instr::i32_const(16384)),
            leaf(Instr::i32_mul),
            leaf(Instr::i32_gt_u),
            if_of(self.fault_branch(m, funcidx)),
            leaf(Instr::local_get(address_local)),
        ]
    }

    /// What is done at the entry function while the stack is unwound: the
    /// coredump is written and the module traps; any other function
    /// returns.
    pub open spec fn edge_branch(&self, m: ModuleV, funcidx: u32) -> Seq<Value<InstrV>> {
        let t = m.type_of(funcidx as int);
        seq![
            call_of(self.write_coredump),
            leaf(Instr::unreachable),
            leaf(Instr::else_end),
        ] + placeholders(t.results, t.results.len(), 667, 0x4426_c000, 0x4084_d800_0000_0000) + seq![
            leaf(Instr::Return),
            leaf(Instr::end),
        ]
    }

    /// The code that is put after a call: while the stack is unwound, the
    /// frame of the caller is written, and the caller returns or writes the
    /// coredump.
    pub open spec fn unwind_code(&self, m: ModuleV, funcidx: u32) -> Seq<Value<InstrV>> {
        let t = m.type_of(funcidx as int);
        seq![
            leaf(Instr::global_get(self.is_unwinding)),
            if_of(
                self.frame_code(funcidx, t.params, self.locals_of(m, funcidx), false) + seq![
                    leaf(Instr::global_get(self.entry_funcidx)),
                    leaf(Instr::i32_const(funcidx as i64)),
                    leaf(Instr::i32_eq),
                    if_of(self.edge_branch(m, funcidx)),
                    leaf(Instr::end),
                ],
            ),
        ]
    }

    /// Whether a load at `node` is checked.
    pub open spec fn checks(&self, node: InstrV) -> bool {
        self.check_memory_operations && (node matches InstrV::Leaf(Instr::i32_load(_, _)))
    }

    /// What the pass asks for at an instruction of the function `funcidx`.
    pub open spec fn instr_edit(&self, m: ModuleV, funcidx: u32, node: InstrV) -> InstrEdit {
        if !self.applies(m, funcidx) {
            InstrEdit { before: Seq::empty(), after: Seq::empty(), replace: None, stop: false }
        } else if node == InstrV::Leaf(Instr::unreachable) {
            InstrEdit {
                before: self.trap_code(m, funcidx, 666, 0x4426_8000, 0x4084_d000_0000_0000),
                after: Seq::empty(),
                replace: Some(leaf(Instr::Return)),
                stop: true,
            }
        } else {
            InstrEdit {
                before: if self.checks(node) {
                    self.load_check(
                        m,
                        funcidx,
                        locals_count(
                            m.code(funcidx as int).locals,
                            m.code(funcidx as int).locals.len(),
                        ) as u32,
                    )
                } else {
                    Seq::empty()
                },
                after: if node matches InstrV::Leaf(Instr::call(_)) || node matches InstrV::Leaf(
                    Instr::call_indirect(_, _),
                ) {
                    self.unwind_code(m, funcidx)
                } else {
                    Seq::empty()
                },
                replace: None,
                stop: false,
            }
        }
    }

    /// The module after the pass has been at an instruction of the function
    /// `funcidx`: where a load is checked, the function has one more local.
    pub open spec fn instr_module(&self, m: ModuleV, funcidx: u32, node: InstrV) -> ModuleV {
        if self.applies(m, funcidx) && node != InstrV::Leaf(Instr::unreachable) && self.checks(
            node,
        ) {
            m.add_func_local(
                funcidx as int,
                CodeLocal { count: 1, value_type: ValueType::NumType(NumType::I32) },
            )
        } else {
            m
        }
    }

    /// The code that is put at the start of an exported function: where no
    /// exported function has been entered, this one is the entry function.
    pub open spec fn entry_code(&self, funcidx: u32) -> Seq<Value<InstrV>> {
        seq![
            leaf(Instr::global_get(self.entry_funcidx)),
            leaf(Instr::i32_const(NO_ENTRY_FUNCIDX_VALUE as i64)),
            leaf(Instr::i32_eq),
            if_of(
                seq![
                    leaf(Instr::i32_const(funcidx as i64)),
                    leaf(Instr::global_set(self.entry_funcidx)),
                    leaf(Instr::end),
                ],
            ),
        ]
    }

    fn is_runtime_function(&self, funcidx: u32) -> (r: bool)
        ensures
            r == self.is_runtime(funcidx),
    {
        funcidx == self.unreachable_shim || funcidx == self.write_coredump || funcidx
            == self.start_frame || funcidx == self.add_i32_local || funcidx == self.add_i64_local
            || funcidx == self.add_f32_local || funcidx == self.add_f64_local
    }

    fn push_trap(
        &self,
        out: &mut Vec<Value<Instr>>,
        funcidx: u32,
        t: &Type,
        locals: &Vec<CodeLocal>,
        v: i64,
        bits32: u32,
        bits64: u64,
    )
        requires
            t.params@.len() + locals@.len() <= u32::MAX,
        ensures
            final(out).deep_view() == old(out).deep_view() + (seq![call_of(self.unreachable_shim)]
                + self.frame_code(funcidx, t.params@, locals@, true) + placeholders(
                t.results@,
                t.results@.len(),
                v,
                bits32,
                bits64,
            )),
    {
        let ghost start = out.deep_view();
        push_call(out, self.unreachable_shim);
        self.push_frame(out, funcidx, &t.params, locals, true);
        push_placeholders(out, &t.results, v, bits32, bits64);
        assert(out.deep_view() =~= start + (seq![call_of(self.unreachable_shim)] + self.frame_code(
            funcidx,
            t.params@,
            locals@,
            true,
        ) + placeholders(t.results@, t.results@.len(), v, bits32, bits64)));
    }
}

impl Visitor for CoredumpTransform {
    fn visit_code<'a>(&self, ctx: &mut VisitorContext<'a, Code>, funcidx: u32)
        ensures
            final(ctx).replace_node.deep_view() == if old(ctx).module@.is_exported(funcidx) {
                Some(
                    CodeV {
                        size: old(ctx).node.size,
                        locals: old(ctx).node.locals@,
                        body: Value {
                            value: self.entry_code(funcidx) + old(ctx).node.body.deep_view().value,
                            start_offset: old(ctx).node.body.start_offset,
                            end_offset: old(ctx).node.body.end_offset,
                        },
                    },
                )
            } else {
                None
            },
    {
        if ctx.module.is_func_exported(funcidx) {
            let mut new_code: Vec<Value<Instr>> = Vec::new();
            assert(new_code.deep_view() =~= Seq::<Value<InstrV>>::empty());
            push_instr(&mut new_code, Instr::global_get(self.entry_funcidx));
            push_instr(&mut new_code, Instr::i32_const(NO_ENTRY_FUNCIDX_VALUE as i64));
            push_instr(&mut new_code, Instr::i32_eq);
            let mut if_body: Vec<Value<Instr>> = Vec::new();
            assert(if_body.deep_view() =~= Seq::<Value<InstrV>>::empty());
            push_instr(&mut if_body, Instr::i32_const(funcidx as i64));
            push_instr(&mut if_body, Instr::global_set(self.entry_funcidx));
            push_instr(&mut if_body, Instr::end);
            assert(if_body.deep_view() =~= seq![
                leaf(Instr::i32_const(funcidx as i64)),
                leaf(Instr::global_set(self.entry_funcidx)),
                leaf(Instr::end),
            ]);
            push_if(&mut new_code, if_body);
            assert(new_code.deep_view() =~= self.entry_code(funcidx));
            let body = clone_expr(&ctx.node.body);
            let Value { value: old_nodes, start_offset, end_offset } = body;
            append_instrs(&mut new_code, old_nodes);
            let code = Code {
                size: ctx.node.size,
                locals: slice_to_vec(ctx.node.locals.as_slice()),
                body: Value { value: new_code, start_offset, end_offset },
            };
            ctx.replace_node = Some(code);
        }
    }

    fn visit_instr<'a>(&self, ctx: &mut VisitorContext<'a, Value<Instr>>)
        ensures
            old(ctx).curr_funcidx matches Some(funcidx) && final(ctx).edit() == self.instr_edit(
                old(ctx).module@,
                funcidx,
                old(ctx).node.value.deep_view(),
            ) && final(ctx).module@ == self.instr_module(
                old(ctx).module@,
                funcidx,
                old(ctx).node.value.deep_view(),
            ),
    {
        let ghost m = ctx.module@;
        let ghost node = ctx.node.value.deep_view();
        proof {
            lemma_instr_view(ctx.node.value);
        }
        assert(ctx.insert_nodes_before.deep_view() =~= Seq::empty());
        assert(ctx.insert_nodes_after.deep_view() =~= Seq::empty());
        let curr_funcidx = match ctx.curr_funcidx {
            Some(f) => f,
            None => {
                return ;
            },
        };
        if self.is_runtime_function(curr_funcidx) {
            return ;
        }
        let curr_func_type = match ctx.module.func_type(curr_funcidx) {
            Some(t) => t,
            None => {
                return ;
            },
        };
        let func_locals = match ctx.module.get_code(curr_funcidx) {
            Some(code) => slice_to_vec(code.locals.as_slice()),
            None => {
                return ;
            },
        };
        let count = match total_locals(&func_locals) {
            Some(count) => count,
            None => {
                return ;
            },
        };
        if curr_func_type.params.len() > (u32::MAX - count) as usize {
            return ;
        }
        proof {
            lemma_flattened_len(func_locals@, func_locals@.len());
        }
        let locals = locals_flatten(func_locals);
        assert(self.applies(m, curr_funcidx));
        assert(locals@ == self.locals_of(m, curr_funcidx));
        let is_unreachable = match &ctx.node.value {
            Instr::unreachable => true,
            _ => false,
        };
        if is_unreachable {
            self.push_trap(
                &mut ctx.insert_nodes_before,
                curr_funcidx,
                &curr_func_type,
                &locals,
                666,
                0x4426_8000,
                0x4084_d000_0000_0000,
            );
            ctx.replace_node(Instr::Return);
            ctx.stop_traversal();
            assert(ctx.edit().before =~= self.trap_code(
                m,
                curr_funcidx,
                666,
                0x4426_8000,
                0x4084_d000_0000_0000,
            ));
            return ;
        }
        let is_load = match &ctx.node.value {
            Instr::i32_load(_, _) => true,
            _ => false,
        };
        if self.check_memory_operations && is_load {
            let exported = ctx.module.is_func_exported(curr_funcidx);
            let local = CodeLocal { count: 1, value_type: ValueType::NumType(NumType::I32) };
            let localidx = count;
            proof {
                lemma_add_func_local(m, curr_funcidx as int, local);
            }
            ctx.module.add_func_local(curr_funcidx, local);
            let mut consequent: Vec<Value<Instr>> = Vec::new();
            assert(consequent.deep_view() =~= Seq::<Value<InstrV>>::empty());
            if exported {
                push_call(&mut consequent, self.write_coredump);
                push_instr(&mut consequent, Instr::unreachable);
                push_instr(&mut consequent, Instr::end);
            } else {
                self.push_trap(
                    &mut consequent,
                    curr_funcidx,
                    &curr_func_type,
                    &locals,
                    667,
                    0x4426_c000,
                    0x4084_d800_0000_0000,
                );
                push_instr(&mut consequent, Instr::Return);
                push_instr(&mut consequent, Instr::end);
            }
            assert(consequent.deep_view() =~= self.fault_branch(m, curr_funcidx));
            let out = &mut ctx.insert_nodes_before;
            push_instr(out, Instr::local_tee(localidx));
            push_instr(out, Instr::memory_size(0));
            push_instr(out, Instr::i32_const(16384));
            push_instr(out, Instr::i32_mul);
            push_instr(out, Instr::i32_gt_u);
            push_if(out, consequent);
            push_instr(out, Instr::local_get(localidx));
            assert(ctx.insert_nodes_before.deep_view() =~= self.load_check(
                m,
                curr_funcidx,
                localidx,
            ));
        }
        let is_call = match &ctx.node.value {
            Instr::call(_) => true,
            Instr::call_indirect(_, _) => true,
            _ => false,
        };
        if is_call {
            let mut body: Vec<Value<Instr>> = Vec::new();
            assert(body.deep_view() =~= Seq::<Value<InstrV>>::empty());
            self.push_frame(&mut body, curr_funcidx, &curr_func_type.params, &locals, false);
            push_instr(&mut body, Instr::global_get(self.entry_funcidx));
            push_instr(&mut body, Instr::i32_const(curr_funcidx as i64));
            push_instr(&mut body, Instr::i32_eq);
            let mut if_body: Vec<Value<Instr>> = Vec::new();
            assert(if_body.deep_view() =~= Seq::<Value<InstrV>>::empty());
            push_call(&mut if_body, self.write_coredump);
            push_instr(&mut if_body, Instr::unreachable);
            push_instr(&mut if_body, Instr::else_end);
            push_placeholders(
                &mut if_body,
                &curr_func_type.results,
                667,
                0x4426_c000,
                0x4084_d800_0000_0000,
            );
            push_instr(&mut if_body, Instr::Return);
            push_instr(&mut if_body, Instr::end);
            assert(if_body.deep_view() =~= self.edge_branch(m, curr_funcidx));
            push_if(&mut body, if_body);
            push_instr(&mut body, Instr::end);
            assert(body.deep_view() =~= self.frame_code(
                curr_funcidx,
                curr_func_type.params@,
                locals@,
                false,
            ) + seq![
                leaf(Instr::global_get(self.entry_funcidx)),
                leaf(Instr::i32_const(curr_funcidx as i64)),
                leaf(Instr::i32_eq),
                if_of(self.edge_branch(m, curr_funcidx)),
                leaf(Instr::end),
            ]);
            let out = &mut ctx.insert_nodes_after;
            push_instr(out, Instr::global_get(self.is_unwinding));
            push_if(out, body);
            assert(ctx.insert_nodes_after.deep_view() =~= self.unwind_code(m, curr_funcidx));
        }
    }
}

impl CoredumpTransform {
    /// What the pass answers at an instruction: the edit that `instr_edit`
    /// says, and the module that `instr_module` says.
    pub proof fn lemma_answer(
        &self,
        before: ModuleV,
        funcidx: u32,
        node: Value<InstrV>,
        edit: InstrEdit,
        after: ModuleV,
    )
        requires
            instr_answer(self, before, funcidx, node, edit, after),
        ensures
            edit == self.instr_edit(before, funcidx, node.value),
            after == self.instr_module(before, funcidx, node.value),
    {
        reveal(instr_answer);
    }

    /// What the pass answers at a function: an exported function begins
    /// with the code that `entry_code` says.
    pub proof fn lemma_code_answer(&self, m: ModuleV, funcidx: u32, replaced: Option<CodeV>)
        requires
            code_answer(self, m, funcidx, replaced),
        ensures
            replaced == if m.is_exported(funcidx) {
                Some(
                    CodeV {
                        size: m.code(funcidx as int).size,
                        locals: m.code(funcidx as int).locals,
                        body: Value {
                            value: self.entry_code(funcidx) + m.code(funcidx as int).body.value,
                            start_offset: m.code(funcidx as int).body.start_offset,
                            end_offset: m.code(funcidx as int).body.end_offset,
                        },
                    },
                )
            } else {
                None
            },
    {
        reveal(code_answer);
    }

    /// The pass asks for nothing to be added to a section.
    pub proof fn lemma_section_answer(&self, m: ModuleV, section: SectionV, added: Added)
        requires
            section_answer(self, m, section, added),
        ensures
            added.is_empty(),
            match section {
                SectionV::Func(_, _) => added is Funcs,
                SectionV::Import(_, _) => added is Imports,
                SectionV::Data(_, _) => added is Data,
                SectionV::Code(_, _) => added is Codes,
                _ => added is Nothing,
            },
    {
        reveal(section_answer);
        assert(drained(Seq::<Vec<u32>>::empty()) =~= Seq::empty());
        match section {
            SectionV::Func(_, _) => {
                let (ctx, out) = choose|
                    ctx: VisitorContext<Vec<u32>>,
                    out: VisitorContext<Vec<u32>>,
                |
                    #[trigger] call_ensures(ask_func_section::<Self>, (self, ctx), out)
                        && ctx.is_new() && added == Added::Funcs(drained(out.insert_nodes_after@));
                assert(out.insert_nodes_after@.len() == 0);
            },
            SectionV::Import(_, _) => {
                let (ctx, out) = choose|
                    ctx: VisitorContext<Vec<Import>>,
                    out: VisitorContext<Vec<Import>>,
                |
                    #[trigger] call_ensures(ask_import_section::<Self>, (self, ctx), out)
                        && ctx.is_new() && added == Added::Imports(
                        asked(out.insert_nodes_after@.reverse()),
                    );
                assert(out.insert_nodes_after@.reverse().len() == 0);
            },
            SectionV::Data(_, _) => {
                let (ctx, out) = choose|
                    ctx: VisitorContext<Vec<DataSegment>>,
                    out: VisitorContext<Vec<DataSegment>>,
                |
                    #[trigger] call_ensures(ask_data_section::<Self>, (self, ctx), out)
                        && ctx.is_new() && added == Added::Data(asked(out.insert_nodes_after@));
                assert(out.insert_nodes_after@.len() == 0);
            },
            SectionV::Code(_, _) => {
                let (ctx, out) = choose|
                    ctx: VisitorContext<Vec<Code>>,
                    out: VisitorContext<Vec<Code>>,
                |
                    #[trigger] call_ensures(ask_code_section::<Self>, (self, ctx), out)
                        && ctx.is_new() && added == Added::Codes(asked(out.insert_nodes_after@));
                assert(out.insert_nodes_after@.len() == 0);
            },
            _ => {},
        }
    }

    /// The pass answers in one way only.
    pub proof fn lemma_determined(&self)
        ensures
            determined(self),
    {
        reveal(determined);
        assert forall|
            m: ModuleV,
            funcidx: u32,
            node: Value<InstrV>,
            e1: InstrEdit,
            m1: ModuleV,
            e2: InstrEdit,
            m2: ModuleV,
        |
            #[trigger] instr_answer(self, m, funcidx, node, e1, m1) && #[trigger] instr_answer(
                self,
                m,
                funcidx,
                node,
                e2,
                m2,
            ) implies e1 == e2 && m1 == m2 by {
            self.lemma_answer(m, funcidx, node, e1, m1);
            self.lemma_answer(m, funcidx, node, e2, m2);
        }
        assert forall|m: ModuleV, funcidx: u32, r1: Option<CodeV>, r2: Option<CodeV>|
            #[trigger] code_answer(self, m, funcidx, r1) && #[trigger] code_answer(
                self,
                m,
                funcidx,
                r2,
            ) implies r1 == r2 by {
            self.lemma_code_answer(m, funcidx, r1);
            self.lemma_code_answer(m, funcidx, r2);
        }
        assert forall|m: ModuleV, section: SectionV, a1: Added, a2: Added|
            #[trigger] section_answer(self, m, section, a1) && #[trigger] section_answer(
                self,
                m,
                section,
                a2,
            ) implies a1 == a2 by {
            self.lemma_section_answer(m, section, a1);
            self.lemma_section_answer(m, section, a2);
            match (a1, a2) {
                (Added::Funcs(x), Added::Funcs(y)) => {
                    assert(x =~= y);
                },
                (Added::Imports(x), Added::Imports(y)) => {
                    assert(x =~= y);
                },
                (Added::Data(x), Added::Data(y)) => {
                    assert(x =~= y);
                },
                (Added::Codes(x), Added::Codes(y)) => {
                    assert(x =~= y);
                },
                _ => {},
            }
        }
    }
}

/// Why a module could not be rewritten.
#[derive(Debug, Clone, Copy, PartialEq, Eq, Structural)]
pub enum RewriteError {
    /// The runtime is no module.
    BadRuntime(DecodeError),
    /// The runtime lacks one of the functions that it must export.
    MissingExport,
    /// The module holds more globals, types or functions than have an index.
    TooLarge,
    /// The module lacks the section of the types, of the functions or of
    /// their bodies, to which the pass adds.
    MissingSection,
}

/// A mutable global of type `i32` that starts at `value`.
pub open spec fn counter_global(value: i64) -> GlobalV {
    GlobalV {
        global_type: GlobalType { valtype: ValueType::NumType(NumType::I32), mutable: true },
        expr: Value {
            value: seq![leaf(Instr::i32_const(value)), leaf(Instr::end)],
            start_offset: 0,
            end_offset: 0,
        },
    }
}

/// The module `m` with a counter that starts at `value` as its last global,
/// and the index of the counter. `None` where no index is left for it.
pub open spec fn with_counter(m: ModuleV, value: i64) -> Option<(ModuleV, u32)> {
    let n = m.global_import_count() + m.globals().len();
    if n > u32::MAX {
        None
    } else {
        Some((m.add_global(counter_global(value)), n as u32))
    }
}

/// The module `m` with the function `code` of type `t` as its last
/// function, under the name `name`, and the index of the function. The type
/// is added as the last type. It is an error where the module lacks the
/// section of the types, of the functions or of their bodies, and where no
/// index is left for the type or for the function.
pub open spec fn with_function(m: ModuleV, code: CodeV, t: TypeV, name: Seq<char>) -> Result<
    (ModuleV, u32),
    RewriteError,
> {
    let n = m.func_import_count() + m.codes().len();
    if m.section(SectionKind::Type) is None || m.section(SectionKind::Code) is None || m.section(
        SectionKind::Func,
    ) is None {
        Err(RewriteError::MissingSection)
    } else if m.types().len() > u32::MAX || n > u32::MAX {
        Err(RewriteError::TooLarge)
    } else {
        Ok(
            (
                m.add_type(t).add_function(code, m.types().len() as u32).add_func_name(
                    n as u32,
                    name,
                ),
                n as u32,
            ),
        )
    }
}

/// The module `m` with the function that `runtime` exports as `export`, as
/// its last function and under the name `name`, and the index of the
/// function.
pub open spec fn with_runtime_function(
    m: ModuleV,
    runtime: ModuleV,
    export: Seq<char>,
    name: Seq<char>,
) -> Result<(ModuleV, u32), RewriteError> {
    match runtime.export_func(export) {
        Some((code, t)) => with_function(m, code, t, name),
        None => Err(RewriteError::MissingExport),
    }
}

/// Adds a mutable global of type `i32` that starts at `value`, and returns
/// its index.
pub fn add_counter_global(module: &mut WasmModule, value: i64) -> (r: Result<u32, RewriteError>)
    ensures
        match with_counter(old(module)@, value) {
            Some((m, idx)) => r == Ok::<u32, RewriteError>(idx) && final(module)@ == m,
            None => r == Err::<u32, RewriteError>(RewriteError::TooLarge) && final(module)@ == old(module)@,
        },
{
    let count = module.global_import_count();
    let defined = module.globals().len();
    if count > 0xffff_ffff || defined > 0xffff_ffff - count {
        return Err(RewriteError::TooLarge);
    }
    let mut expr: Vec<Value<Instr>> = Vec::new();
    assert(expr.deep_view() =~= Seq::<Value<InstrV>>::empty());
    push_instr(&mut expr, Instr::i32_const(value));
    push_instr(&mut expr, Instr::end);
    let global = Global {
        global_type: GlobalType { valtype: ValueType::NumType(NumType::I32), mutable: true },
        expr: Value::new(expr),
    };
    assert(global.deep_view().expr.value =~= counter_global(value).expr.value);
    match module.add_global(global) {
        Some(idx) => Ok(idx),
        None => Err(RewriteError::TooLarge),
    }
}

/// Adds the function `func` of type `t` to the module under the name
/// `name`, and returns its index.
pub fn add_named_function(module: &mut WasmModule, func: Code, t: &Type, name: &str) -> (r: Result<
    u32,
    RewriteError,
>)
    ensures
        match with_function(old(module)@, func.deep_view(), t.deep_view(), name@) {
            Ok((m, idx)) => r == Ok::<u32, RewriteError>(idx) && final(module)@ == m,
            Err(e) => r == Err::<u32, RewriteError>(e) && final(module)@ == old(module)@,
        },
{
    if !module.has_section(SectionKind::Type) || !module.has_section(SectionKind::Code)
        || !module.has_section(SectionKind::Func) {
        return Err(RewriteError::MissingSection);
    }
    let count = module.imported_func_types().len();
    let bodies = module.get_code_count();
    if module.type_section().len() > 0xffff_ffff || count > 0xffff_ffff || bodies > 0xffff_ffff
        - count {
        return Err(RewriteError::TooLarge);
    }
    let ghost before = module@;
    let typeidx = module.add_type(t);
    proof {
        lemma_add_type_frame(before, t.deep_view());
    }
    let funcidx = module.add_function(func, typeidx);
    module.add_func_name(funcidx, name);
    Ok(funcidx)
}

/// Adds to `module` the function that `runtime` exports as `export`, under
/// the name `name`, and returns its index.
pub fn add_runtime_function(module: &mut WasmModule, runtime: &WasmModule, export: &str, name: &str) -> (r:
    Result<u32, RewriteError>)
    ensures
        match with_runtime_function(old(module)@, runtime@, export@, name@) {
            Ok((m, idx)) => r == Ok::<u32, RewriteError>(idx) && final(module)@ == m,
            Err(e) => r == Err::<u32, RewriteError>(e) && final(module)@ == old(module)@,
        },
{
    let (func, t) = match runtime.get_export_func(export) {
        Ok((func, t)) => (func.clone(), t),
        Err(_) => {
            return Err(RewriteError::MissingExport);
        },
    };
    add_named_function(module, func, &t, name)
}

/// The runtime that `bytes` hold, with the globals `frames_ptr_global` and
/// `frames_count_global` for its functions.
pub open spec fn prepared(bytes: Seq<u8>, frames_ptr_global: u32, frames_count_global: u32) -> Result<
    ModuleV,
    DecodeError,
> {
    match decode_module(bytes) {
        Ok(m) => Ok(
            (RuntimeTransform { frames_ptr_global, frames_count_global }).retargeted(
                m,
                m.function_indices().len(),
            ),
        ),
        Err(e) => Err(e),
    }
}

/// Decodes the runtime and gives its functions the globals `frames_ptr_global`
/// and `frames_count_global`.
pub fn get_runtime(bytes: &[u8], frames_ptr_global: u32, frames_count_global: u32) -> (r: Result<
    WasmModule,
    DecodeError,
>)
    ensures
        match prepared(bytes@, frames_ptr_global, frames_count_global) {
            Ok(m) => r matches Ok(runtime) && runtime@ == m,
            Err(e) => r matches Err(x) && x == e,
        },
{
    let mut module = match parse(bytes) {
        Ok(m) => m,
        Err(e) => {
            return Err(e);
        },
    };
    let ghost decoded = module.deep_view();
    let visitor = RuntimeTransform { frames_ptr_global, frames_count_global };
    let log = traverse(&mut module, &visitor);
    proof {
        visitor.lemma_pass(decoded, log@, module.deep_view());
    }
    Ok(WasmModule::new(module))
}

/// How far a module has come on its way to being rewritten: the module,
/// the indices of the globals and functions that were added to it, in the
/// order in which they were added, and what went wrong, if anything did.
pub struct Equipping {
    pub module: ModuleV,
    pub indices: Seq<u32>,
    pub error: Option<RewriteError>,
}

impl Equipping {
    /// One more counter that starts at `value`, unless something went wrong
    /// before.
    pub open spec fn and_counter(self, value: i64) -> Equipping {
        if self.error is Some {
            self
        } else {
            match with_counter(self.module, value) {
                Some((m, idx)) => Equipping {
                    module: m,
                    indices: self.indices.push(idx),
                    error: None,
                },
                None => Equipping { error: Some(RewriteError::TooLarge), ..self },
            }
        }
    }

    /// One more function, unless something went wrong before.
    pub open spec fn and_function(self, code: CodeV, t: TypeV, name: Seq<char>) -> Equipping {
        if self.error is Some {
            self
        } else {
            match with_function(self.module, code, t, name) {
                Ok((m, idx)) => Equipping {
                    module: m,
                    indices: self.indices.push(idx),
                    error: None,
                },
                Err(e) => Equipping { error: Some(e), ..self },
            }
        }
    }

    /// One more function of the runtime, unless something went wrong
    /// before.
    pub open spec fn and_runtime_function(
        self,
        runtime: ModuleV,
        export: Seq<char>,
        name: Seq<char>,
    ) -> Equipping {
        if self.error is Some {
            self
        } else {
            match with_runtime_function(self.module, runtime, export, name) {
                Ok((m, idx)) => Equipping {
                    module: m,
                    indices: self.indices.push(idx),
                    error: None,
                },
                Err(e) => Equipping { error: Some(e), ..self },
            }
        }
    }
}

/// The function that starts the unwinding: it sets the global
/// `is_unwinding` to 1.
pub open spec fn shim_code(is_unwinding: u32) -> CodeV {
    CodeV {
        size: Value { value: 0, start_offset: 0, end_offset: 0 },
        locals: Seq::empty(),
        body: Value {
            value: seq![
                leaf(Instr::i32_const(1)),
                leaf(Instr::global_set(is_unwinding)),
                leaf(Instr::end),
            ],
            start_offset: 0,
            end_offset: 0,
        },
    }
}

/// The module `m` with two more counters, which start at `a` and at `b`.
#[verifier::opaque]
pub open spec fn with_counters(m: ModuleV, a: i64, b: i64) -> Equipping {
    (Equipping { module: m, indices: Seq::empty(), error: None }).and_counter(a).and_counter(b)
}

/// The module `m` with the functions that the pass calls: the function
/// that starts the unwinding, then those of `runtime`.
#[verifier::opaque]
pub open spec fn with_functions(m: ModuleV, runtime: ModuleV, is_unwinding: u32) -> Equipping {
    (Equipping { module: m, indices: Seq::empty(), error: None }).and_function(
        shim_code(is_unwinding),
        TypeV { params: Seq::empty(), results: Seq::empty() },
        "coredump/unreachable_shim"@,
    ).and_runtime_function(
        runtime,
        "write_coredump"@,
        "coredump/write_coredump"@,
    ).and_runtime_function(runtime, "start_frame"@, "coredump/start_frame"@).and_runtime_function(
        runtime,
        "add_i32_local"@,
        "coredump/add_i32_local"@,
    ).and_runtime_function(
        runtime,
        "add_f32_local"@,
        "coredump/add_f32_local"@,
    ).and_runtime_function(
        runtime,
        "add_f64_local"@,
        "coredump/add_f64_local"@,
    ).and_runtime_function(runtime, "add_i64_local"@, "coredump/add_i64_local"@)
}

/// The module `m` with what the pass needs, taken from the runtime that
/// the bytes `runtime` hold. In order: the globals that hold the place of
/// the frames and their number; once the runtime is decoded, the global
/// that says whether the stack is unwound and the global that holds the
/// function that was entered; then the functions, those of the runtime
/// with the first two globals for theirs.
pub open spec fn equipped(m: ModuleV, runtime: Seq<u8>) -> Equipping {
    let frames = with_counters(m, 0, 0);
    if frames.error is Some {
        frames
    } else {
        match prepared(runtime, frames.indices[0], frames.indices[1]) {
            Err(e) => Equipping { error: Some(RewriteError::BadRuntime(e)), ..frames },
            Ok(rt) => {
                let globals = with_counters(frames.module, 0, NO_ENTRY_FUNCIDX_VALUE as i64);
                if globals.error is Some {
                    Equipping {
                        module: globals.module,
                        indices: frames.indices + globals.indices,
                        error: globals.error,
                    }
                } else {
                    let functions = with_functions(globals.module, rt, globals.indices[0]);
                    Equipping {
                        module: functions.module,
                        indices: frames.indices + globals.indices + functions.indices,
                        error: functions.error,
                    }
                }
            },
        }
    }
}

/// The pass over a module that was equipped for it.
pub open spec fn pass_for(e: Equipping, check_memory_operations: bool) -> CoredumpTransform {
    CoredumpTransform {
        is_unwinding: e.indices[2],
        entry_funcidx: e.indices[3],
        unreachable_shim: e.indices[4],
        write_coredump: e.indices[5],
        start_frame: e.indices[6],
        add_i32_local: e.indices[7],
        add_f32_local: e.indices[8],
        add_f64_local: e.indices[9],
        add_i64_local: e.indices[10],
        check_memory_operations,
    }
}

/// Adds two counters, which start at `a` and at `b`, and returns their
/// indices.
fn add_counters(module: &mut WasmModule, a: i64, b: i64) -> (r: Result<(u32, u32), RewriteError>)
    ensures
        final(module)@ == with_counters(old(module)@, a, b).module,
        match r {
            Ok((x, y)) => with_counters(old(module)@, a, b).error is None && with_counters(
                old(module)@,
                a,
                b,
            ).indices == seq![x, y],
            Err(e) => with_counters(old(module)@, a, b).error == Some(e),
        },
{
    reveal(with_counters);
    let x = add_counter_global(module, a)?;
    let y = add_counter_global(module, b)?;
    assert(with_counters(old(module)@, a, b).indices =~= seq![x, y]);
    Ok((x, y))
}

/// Adds the function of the runtime that is exported as `export`, and puts
/// its index at the end of `indices`.
fn add_one(
    module: &mut WasmModule,
    runtime: &WasmModule,
    export: &str,
    name: &str,
    indices: &mut Vec<u32>,
    Ghost(before): Ghost<Equipping>,
) -> (r: Result<(), RewriteError>)
    requires
        before.error is None,
        before.module == old(module)@,
        before.indices == old(indices)@,
    ensures
        final(module)@ == before.and_runtime_function(runtime@, export@, name@).module,
        final(indices)@ == before.and_runtime_function(runtime@, export@, name@).indices,
        match r {
            Ok(_) => before.and_runtime_function(runtime@, export@, name@).error is None,
            Err(e) => before.and_runtime_function(runtime@, export@, name@).error == Some(e),
        },
{
    let idx = add_runtime_function(module, runtime, export, name)?;
    indices.push(idx);
    Ok(())
}

/// Adds the functions that the pass calls, and returns their indices.
fn add_functions(module: &mut WasmModule, runtime: &WasmModule, is_unwinding: u32) -> (r: Result<
    Vec<u32>,
    RewriteError,
>)
    ensures
        final(module)@ == with_functions(old(module)@, runtime@, is_unwinding).module,
        match r {
            Ok(v) => with_functions(old(module)@, runtime@, is_unwinding).error is None && v@
                == with_functions(old(module)@, runtime@, is_unwinding).indices && v@.len() == 7,
            Err(e) => with_functions(old(module)@, runtime@, is_unwinding).error == Some(e),
        },
{
    reveal(with_functions);
    let ghost start = Equipping { module: module@, indices: Seq::empty(), error: None };
    let t = Type { params: Vec::new(), results: Vec::new() };
    let mut body: Vec<Value<Instr>> = Vec::new();
    assert(body.deep_view() =~= Seq::<Value<InstrV>>::empty());
    push_instr(&mut body, Instr::i32_const(1));
    push_instr(&mut body, Instr::global_set(is_unwinding));
    push_instr(&mut body, Instr::end);
    let func = Code { locals: Vec::new(), size: Value::new(0), body: Value::new(body) };
    assert(func.deep_view().locals =~= Seq::empty());
    assert(func.deep_view().body.value =~= shim_code(is_unwinding).body.value);
    assert(t.deep_view().params =~= Seq::empty());
    assert(t.deep_view().results =~= Seq::empty());
    let ghost a = start.and_function(
        shim_code(is_unwinding),
        TypeV { params: Seq::empty(), results: Seq::empty() },
        "coredump/unreachable_shim"@,
    );
    let shim = add_named_function(module, func, &t, "coredump/unreachable_shim")?;
    let mut indices: Vec<u32> = Vec::new();
    indices.push(shim);
    assert(indices@ =~= a.indices);
    let ghost b = a.and_runtime_function(runtime@, "write_coredump"@, "coredump/write_coredump"@);
    add_one(module, runtime, "write_coredump", "coredump/write_coredump", &mut indices, Ghost(a))?;
    let ghost c = b.and_runtime_function(runtime@, "start_frame"@, "coredump/start_frame"@);
    add_one(module, runtime, "start_frame", "coredump/start_frame", &mut indices, Ghost(b))?;
    let ghost d = c.and_runtime_function(runtime@, "add_i32_local"@, "coredump/add_i32_local"@);
    add_one(module, runtime, "add_i32_local", "coredump/add_i32_local", &mut indices, Ghost(c))?;
    let ghost e = d.and_runtime_function(runtime@, "add_f32_local"@, "coredump/add_f32_local"@);
    add_one(module, runtime, "add_f32_local", "coredump/add_f32_local", &mut indices, Ghost(d))?;
    let ghost f = e.and_runtime_function(runtime@, "add_f64_local"@, "coredump/add_f64_local"@);
    add_one(module, runtime, "add_f64_local", "coredump/add_f64_local", &mut indices, Ghost(e))?;
    add_one(module, runtime, "add_i64_local", "coredump/add_i64_local", &mut indices, Ghost(f))?;
    Ok(indices)
}

/// Adds to `module` the globals and the functions that the pass needs, the
/// functions from the runtime that the bytes `runtime` hold, and returns
/// the pass. Where something goes wrong the module keeps what was added
/// before.
pub fn instrument(module: &mut WasmModule, check_memory_operations: bool, runtime: &[u8]) -> (r:
    Result<CoredumpTransform, RewriteError>)
    ensures
        final(module)@ == equipped(old(module)@, runtime@).module,
        match r {
            Ok(pass) => equipped(old(module)@, runtime@).error is None && pass == pass_for(
                equipped(old(module)@, runtime@),
                check_memory_operations,
            ),
            Err(e) => equipped(old(module)@, runtime@).error == Some(e),
        },
{
    let (frames_ptr_global, frames_count_global) = add_counters(module, 0, 0)?;
    let rt = match get_runtime(runtime, frames_ptr_global, frames_count_global) {
        Ok(rt) => rt,
        Err(e) => {
            return Err(RewriteError::BadRuntime(e));
        },
    };
    let (is_unwinding, entry_funcidx) = add_counters(module, 0, NO_ENTRY_FUNCIDX_VALUE as i64)?;
    let f = add_functions(module, &rt, is_unwinding)?;
    Ok(
        CoredumpTransform {
            is_unwinding,
            entry_funcidx,
            unreachable_shim: f[0],
            write_coredump: f[1],
            start_frame: f[2],
            add_i32_local: f[3],
            add_f32_local: f[4],
            add_f64_local: f[5],
            add_i64_local: f[6],
            check_memory_operations,
        },
    )
}

/// What rewriting leaves is determined by the module, the runtime and the
/// flag: two passes over the module as it was equipped leave the same
/// module.
pub proof fn lemma_rewrite_determined(
    m: ModuleV,
    runtime: Seq<u8>,
    check_memory_operations: bool,
    a: TraverseLog,
    x: ModuleV,
    b: TraverseLog,
    y: ModuleV,
)
    requires
        pass_of(
            &pass_for(equipped(m, runtime), check_memory_operations),
            equipped(m, runtime).module,
            a,
            x,
        ),
        pass_of(
            &pass_for(equipped(m, runtime), check_memory_operations),
            equipped(m, runtime).module,
            b,
            y,
        ),
    ensures
        a == b,
        x == y,
{
    let pass = pass_for(equipped(m, runtime), check_memory_operations);
    pass.lemma_determined();
    lemma_pass_determined(&pass, equipped(m, runtime).module, a, x, b, y);
}

/// Makes `module` record its stack when it traps. The functions that
/// write the frames and the coredump are taken from `runtime`, a module
/// that exports them as `write_coredump`, `start_frame`, `add_i32_local`,
/// `add_i64_local`, `add_f32_local` and `add_f64_local`. With
/// `check_memory_operations` each 32-bit load is checked against the size
/// of the memory. The module is first equipped with what the pass needs,
/// then the pass goes over it; where the module cannot be equipped, it
/// keeps what was added before that showed. Returns the pass as it went.
pub fn rewrite(module: &mut Module, check_memory_operations: bool, runtime: &[u8]) -> (r: Result<
    Ghost<TraverseLog>,
    RewriteError,
>)
    ensures
        match r {
            Ok(log) => equipped(old(module).deep_view(), runtime@).error is None && pass_of(
                &pass_for(equipped(old(module).deep_view(), runtime@), check_memory_operations),
                equipped(old(module).deep_view(), runtime@).module,
                log@,
                final(module).deep_view(),
            ),
            Err(e) => equipped(old(module).deep_view(), runtime@).error == Some(e) && final(module).deep_view() == equipped(old(module).deep_view(), runtime@).module,
        },
{
    let mut taken = Module { sections: Vec::new() };
    core::mem::swap(module, &mut taken);
    let mut wasm = WasmModule::new(taken);
    let r = instrument(&mut wasm, check_memory_operations, runtime);
    let mut inner = wasm.into_inner();
    match r {
        Ok(visitor) => {
            let log = traverse(&mut inner, &visitor);
            *module = inner;
            Ok(log)
        },
        Err(e) => {
            *module = inner;
            Err(e)
        },
    }
}

} // verus!
