//! What the traversal makes of a body, given what the visitor asked for at
//! each instruction.

use crate::ast::{CodeV, DataSegmentV, ImportV, InstrV, ModuleV, SectionV, Value};
use vstd::prelude::*;

verus! {

/// What a visitor asked for at one instruction: instructions to put before
/// it and after it, an instruction to put in its place, and whether to leave
/// the rest of the body alone.
pub struct InstrEdit {
    pub before: Seq<Value<InstrV>>,
    pub after: Seq<Value<InstrV>>,
    pub replace: Option<Value<InstrV>>,
    pub stop: bool,
}

/// What happened at one instruction of a body. A structured instruction is
/// not handed to the visitor: its body is walked. Any other instruction is
/// handed to the visitor, which answers with an edit and leaves the module
/// that stands beside it.
pub enum Visit {
    Nested(Seq<Visit>),
    Leaf(InstrEdit, ModuleV),
}

/// The body of a structured instruction.
pub open spec fn nested_body(i: InstrV) -> Option<Seq<Value<InstrV>>> {
    match i {
        InstrV::Block(_, body) => Some(body.value),
        InstrV::Loop(_, body) => Some(body.value),
        InstrV::If(_, body) => Some(body.value),
        _ => None,
    }
}

/// The structured instruction `i` with `body` for its body.
pub open spec fn with_body(i: InstrV, body: Seq<Value<InstrV>>) -> InstrV {
    match i {
        InstrV::Block(t, old) => InstrV::Block(
            t,
            Value { value: body, start_offset: old.start_offset, end_offset: old.end_offset },
        ),
        InstrV::Loop(t, old) => InstrV::Loop(
            t,
            Value { value: body, start_offset: old.start_offset, end_offset: old.end_offset },
        ),
        InstrV::If(t, old) => InstrV::If(
            t,
            Value { value: body, start_offset: old.start_offset, end_offset: old.end_offset },
        ),
        _ => i,
    }
}

/// What takes the place of `node`: for a structured instruction the same
/// instruction with its body rewritten; for any other the instructions asked
/// for before it, the instruction or its replacement, and those asked for
/// after it.
pub open spec fn rewrite_node(node: Value<InstrV>, visit: Visit) -> Seq<Value<InstrV>>
    decreases visit, 0nat,
{
    match visit {
        Visit::Leaf(e, _) => e.before + seq![
            match e.replace {
                Some(r) => r,
                None => node,
            },
        ] + e.after,
        Visit::Nested(visits) => match nested_body(node.value) {
            Some(body) => seq![
                Value {
                    value: with_body(node.value, rewrite_body(body, visits)),
                    start_offset: node.start_offset,
                    end_offset: node.end_offset,
                },
            ],
            None => seq![node],
        },
    }
}

/// What takes the place of the first `n` instructions of `body`.
pub open spec fn rewrite_prefix(body: Seq<Value<InstrV>>, visits: Seq<Visit>, n: nat) -> Seq<
    Value<InstrV>,
>
    decreases visits, n,
{
    if n == 0 || n > visits.len() || n > body.len() {
        Seq::empty()
    } else {
        rewrite_prefix(body, visits, (n - 1) as nat) + rewrite_node(body[n - 1], visits[n - 1])
    }
}

/// The body that the traversal leaves: what takes the place of the
/// instructions that were visited, then the instructions that were not,
/// unchanged.
pub open spec fn rewrite_body(body: Seq<Value<InstrV>>, visits: Seq<Visit>) -> Seq<Value<InstrV>>
    decreases visits, visits.len() + 1,
{
    if visits.len() > body.len() {
        body
    } else {
        rewrite_prefix(body, visits, visits.len()) + body.subrange(
            visits.len() as int,
            body.len() as int,
        )
    }
}

/// Whether `visits` is a walk of `body`: one visit for each instruction in
/// order, up to the first at which the visitor asked to stop, or to the end;
/// the body of each structured instruction walked in the same way.
pub open spec fn fits(body: Seq<Value<InstrV>>, visits: Seq<Visit>) -> bool
    decreases visits, 0nat,
{
    &&& visits.len() <= body.len()
    &&& visits.len() < body.len() ==> visits.len() > 0 && (visits.last() matches Visit::Leaf(e, _)
        && e.stop)
    &&& forall|k: int|
        0 <= k < visits.len() ==> match #[trigger] visits[k] {
            Visit::Nested(inner) => nested_body(body[k].value) matches Some(b) && fits(b, inner),
            Visit::Leaf(e, _) => nested_body(body[k].value) is None && (e.stop ==> k + 1
                == visits.len()),
        }
}

/// The module as the first `n` of `visits` left it, having begun with
/// `start`: as the visitor left it at the last instruction that it was
/// handed.
pub open spec fn left_by(visits: Seq<Visit>, n: nat, start: ModuleV) -> ModuleV
    decreases visits, n,
{
    if n == 0 || n > visits.len() {
        start
    } else {
        match visits[n - 1] {
            Visit::Leaf(_, m) => m,
            Visit::Nested(inner) => left_by(
                inner,
                inner.len(),
                left_by(visits, (n - 1) as nat, start),
            ),
        }
    }
}

/// What a pass added to a section: nothing, or the nodes that the visitor
/// asked for, in the order in which they stand in the section.
pub enum Added {
    Nothing,
    Funcs(Seq<u32>),
    Imports(Seq<ImportV>),
    Codes(Seq<CodeV>),
    Data(Seq<DataSegmentV>),
}

impl Added {
    /// Whether nothing was added.
    pub open spec fn is_empty(self) -> bool {
        match self {
            Added::Nothing => true,
            Added::Funcs(x) => x.len() == 0,
            Added::Imports(x) => x.len() == 0,
            Added::Codes(x) => x.len() == 0,
            Added::Data(x) => x.len() == 0,
        }
    }
}

/// The section `old` with `added` at its end.
pub open spec fn with_added(old: SectionV, added: Added) -> SectionV {
    match (old, added) {
        (SectionV::Func(size, v), Added::Funcs(x)) => SectionV::Func(size, v + x),
        (SectionV::Import(size, v), Added::Imports(x)) => SectionV::Import(size, v + x),
        (SectionV::Data(size, v), Added::Data(x)) => SectionV::Data(size, v + x),
        (SectionV::Code(size, v), Added::Codes(x)) => SectionV::Code(
            size,
            Value { value: v.value + x, start_offset: v.start_offset, end_offset: v.end_offset },
        ),
        _ => old,
    }
}

/// The module `m` with `added[j]` at the end of its section `j`, for each
/// of its sections.
pub open spec fn module_with_added(m: ModuleV, added: Seq<Added>) -> ModuleV {
    ModuleV {
        sections: Seq::new(
            m.sections.len(),
            |j: int|
                Value {
                    value: if j < added.len() {
                        with_added(m.sections[j].value, added[j])
                    } else {
                        m.sections[j].value
                    },
                    start_offset: m.sections[j].start_offset,
                    end_offset: m.sections[j].end_offset,
                },
        ),
    }
}

/// What happened at one function of a pass: the module as it was when the
/// function was handed to the visitor, the body that the visitor asked to
/// put in its place, the walk of its instructions, and the module as the
/// walk left it, in which the function has no instructions yet.
pub struct FunctionVisit {
    pub funcidx: u32,
    pub handed: ModuleV,
    pub replaced: Option<CodeV>,
    pub walk: Seq<Visit>,
    pub left: ModuleV,
}

impl FunctionVisit {
    /// The module when the instructions of the function were taken out to
    /// be walked.
    pub open spec fn entered(self) -> ModuleV {
        match self.replaced {
            Some(code) => self.handed.with_code(self.funcidx as int, code),
            None => self.handed,
        }
    }

    /// The instructions that were walked.
    pub open spec fn taken(self) -> Seq<Value<InstrV>> {
        self.entered().code(self.funcidx as int).body.value
    }

    /// The module beside which the walk began: the function has no
    /// instructions in it, they were taken out.
    pub open spec fn emptied(self) -> ModuleV {
        self.entered().with_body(self.funcidx as int, Seq::empty())
    }

    /// The module when the function was done: as the walk left it, with the
    /// body that the walk made.
    pub open spec fn done(self) -> ModuleV {
        self.left.with_body(self.funcidx as int, rewrite_body(self.taken(), self.walk))
    }
}

/// The module that a pass leaves, which began with `start` and went
/// through the first `n` of `functions`.
#[verifier::opaque]
pub open spec fn after_functions(start: ModuleV, functions: Seq<FunctionVisit>, n: nat) -> ModuleV {
    if n == 0 || n > functions.len() {
        start
    } else {
        functions[n - 1].done()
    }
}

/// Whether `functions` are the visits of a pass that began with `start`, in
/// order: each function was handed the module that the one before it left,
/// and was walked as `fits` says.
pub open spec fn chained(start: ModuleV, functions: Seq<FunctionVisit>) -> bool {
    forall|k: int|
        0 <= k < functions.len() ==> (#[trigger] functions[k]).handed == after_functions(
            start,
            functions,
            k as nat,
        ) && functions[k].handed.has_code(functions[k].funcidx as int) && fits(
            functions[k].taken(),
            functions[k].walk,
        ) && functions[k].left == left_by(
            functions[k].walk,
            functions[k].walk.len(),
            functions[k].emptied(),
        )
}

/// What takes the place of the first `n` instructions depends on the first
/// `n` visits alone.
pub proof fn lemma_rewrite_prefix_push(
    body: Seq<Value<InstrV>>,
    visits: Seq<Visit>,
    v: Visit,
    n: nat,
)
    requires
        n <= visits.len(),
    ensures
        rewrite_prefix(body, visits.push(v), n) == rewrite_prefix(body, visits, n),
    decreases n,
{
    if n > 0 && n <= body.len() {
        lemma_rewrite_prefix_push(body, visits, v, (n - 1) as nat);
        assert(visits.push(v)[n - 1] == visits[n - 1]);
    }
}

/// The module as the first `n` visits left it depends on the first `n`
/// visits alone.
pub proof fn lemma_left_by_push(visits: Seq<Visit>, v: Visit, n: nat, start: ModuleV)
    requires
        n <= visits.len(),
    ensures
        left_by(visits.push(v), n, start) == left_by(visits, n, start),
    decreases n,
{
    if n > 0 {
        lemma_left_by_push(visits, v, (n - 1) as nat, start);
        assert(visits.push(v)[n - 1] == visits[n - 1]);
    }
}

/// The module as one visit left it.
pub proof fn lemma_left_by_one(v: Visit, start: ModuleV)
    ensures
        left_by(seq![v], 1, start) == match v {
            Visit::Leaf(_, m) => m,
            Visit::Nested(inner) => left_by(inner, inner.len(), start),
        },
{
    assert(seq![v][0] == v);
    assert(left_by(seq![v], 0, start) == start);
}

/// The module as a walk and one more visit left it is the module as that
/// visit alone left it, having begun where the walk ended.
pub proof fn lemma_left_by_last(visits: Seq<Visit>, v: Visit, start: ModuleV)
    ensures
        left_by(visits.push(v), visits.len() + 1, start) == left_by(
            seq![v],
            1,
            left_by(visits, visits.len(), start),
        ),
{
    lemma_left_by_push(visits, v, visits.len(), start);
    assert(visits.push(v)[visits.len() as int] == v);
    assert(seq![v][0] == v);
    assert(left_by(seq![v], 0, left_by(visits, visits.len(), start)) == left_by(
        visits,
        visits.len(),
        start,
    ));
}

/// The module that a pass leaves once it went through some functions is
/// the module that the last of them left.
pub proof fn lemma_after_functions(start: ModuleV, functions: Seq<FunctionVisit>, n: nat)
    ensures
        after_functions(start, functions, n) == if n == 0 || n > functions.len() {
            start
        } else {
            functions[n - 1].done()
        },
{
    reveal(after_functions);
}

/// The visits of a pass and what happened at one more function, which was
/// handed the module that they left, are the visits of a pass; it leaves
/// the module that the function left.
pub proof fn lemma_chained_push(start: ModuleV, functions: Seq<FunctionVisit>, visit: FunctionVisit)
    requires
        chained(start, functions),
        visit.handed == after_functions(start, functions, functions.len()),
        visit.handed.has_code(visit.funcidx as int),
        fits(visit.taken(), visit.walk),
        visit.left == left_by(visit.walk, visit.walk.len(), visit.emptied()),
    ensures
        chained(start, functions.push(visit)),
        after_functions(start, functions.push(visit), functions.len() + 1) == visit.done(),
{
    let all = functions.push(visit);
    lemma_after_functions(start, all, all.len());
    assert forall|k: int| 0 <= k < all.len() implies (#[trigger] all[k]).handed == after_functions(
        start,
        all,
        k as nat,
    ) && all[k].handed.has_code(all[k].funcidx as int) && fits(all[k].taken(), all[k].walk)
        && all[k].left == left_by(all[k].walk, all[k].walk.len(), all[k].emptied()) by {
        lemma_after_functions(start, all, k as nat);
        lemma_after_functions(start, functions, k as nat);
        if k > 0 {
            assert(all[k - 1] == functions[k - 1]);
        }
        if k < functions.len() {
            assert(all[k] == functions[k]);
        }
    }
}

} // verus!
