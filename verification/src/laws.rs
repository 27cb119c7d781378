//! What holds of the index spaces of a module, of the edits that the facade
//! makes, and of the traversal.

use crate::ast::{
    CodeLocal, CodeV, GlobalV, Instr, InstrV, ModuleV, SectionKind, SectionV, TypeV, Value,
};
use crate::edits::{
    Added, FunctionVisit, InstrEdit, Visit, after_functions, chained, fits, left_by,
    lemma_after_functions, module_with_added, nested_body, rewrite_body, rewrite_node,
    rewrite_prefix, with_body,
};
use crate::index::{insert_position, last_of_kind, lemma_last_of_kind, lemma_with_section};
use crate::traverse::{
    TraverseLog, Visitor, answered, code_answer, function_answered, instr_answer, pass_of,
    section_answer, visit_of,
};
use vstd::prelude::*;

verus! {

/// Every index of the function index space belongs either to an imported
/// function or to a function with a body, never to both; and where the
/// module has a type index for each body, the function has a type index.
pub proof fn lemma_index_space(m: ModuleV, funcidx: int)
    requires
        0 <= funcidx < m.func_import_count() + m.codes().len(),
    ensures
        m.is_imported(funcidx) != m.has_code(funcidx),
        m.funcs().len() == m.codes().len() ==> funcidx < m.func_types().len(),
{
}

/// The indices of the functions that a traversal hands to the visitor are
/// those of the functions with a body, each once and in order.
pub proof fn lemma_traversal_complete(m: ModuleV)
    requires
        m.func_import_count() + m.codes().len() <= 0x1_0000_0000,
    ensures
        m.function_indices().len() == m.codes().len(),
        forall|k: int|
            0 <= k < m.codes().len() ==> #[trigger] m.function_indices()[k]
                == m.func_import_count() + k,
        forall|f: int|
            m.has_code(f) ==> m.function_indices()[f - m.func_import_count()] == f,
        forall|j: int, k: int|
            0 <= j < k < m.codes().len() ==> m.function_indices()[j] != m.function_indices()[k],
{
}

/// A pass whose visitor asks for nothing to be added to a section leaves
/// the sections as they were.
pub proof fn lemma_nothing_added(m: ModuleV, added: Seq<Added>)
    requires
        forall|j: int| 0 <= j < added.len() ==> (#[trigger] added[j]).is_empty(),
    ensures
        module_with_added(m, added) == m,
{
    assert forall|j: int| 0 <= j < m.sections.len() implies #[trigger] module_with_added(
        m,
        added,
    ).sections[j] == m.sections[j] by {
        if j < added.len() {
            assert(added[j].is_empty());
            match (m.sections[j].value, added[j]) {
                (SectionV::Func(_, v), Added::Funcs(x)) => {
                    assert(v + x =~= v);
                },
                (SectionV::Import(_, v), Added::Imports(x)) => {
                    assert(v + x =~= v);
                },
                (SectionV::Data(_, v), Added::Data(x)) => {
                    assert(v + x =~= v);
                },
                (SectionV::Code(_, v), Added::Codes(x)) => {
                    assert(v.value + x =~= v.value);
                },
                _ => {},
            }
        }
    }
    assert(module_with_added(m, added).sections =~= m.sections);
}

/// A module with a type section holds a type that was added as its last
/// type, under the index that `add_type` returned: the number of types that
/// it held before. Nothing else of the index spaces changes.
pub proof fn lemma_add_type(m: ModuleV, t: TypeV)
    requires
        m.section(SectionKind::Type) is Some,
    ensures
        m.add_type(t).types() == m.types().push(t),
        m.add_type(t).types()[m.types().len() as int] == t,
        m.add_type(t).imports() == m.imports(),
        m.add_type(t).funcs() == m.funcs(),
        m.add_type(t).codes() == m.codes(),
        m.add_type(t).globals() == m.globals(),
{
    lemma_last_of_kind(m.sections, SectionKind::Type, m.sections.len());
    let k = m.section(SectionKind::Type).unwrap();
    match m.sections[k].value {
        SectionV::Type(size, v) => {
            lemma_with_section(m, k, SectionV::Type(size, v.push(t)));
        },
        _ => {},
    }
}

/// A module with a code section and a function section of the same length
/// holds a function that was added as its last function, under the index
/// that `add_function` returned: the number of functions that it held
/// before. The functions that it held keep their indices.
pub proof fn lemma_add_function(m: ModuleV, code: CodeV, typeidx: u32)
    requires
        m.section(SectionKind::Code) is Some,
        m.section(SectionKind::Func) is Some,
        m.funcs().len() == m.codes().len(),
    ensures
        ({
            let n = m.add_function(code, typeidx);
            let funcidx = m.func_import_count() + m.codes().len();
            &&& n.codes() == m.codes().push(code)
            &&& n.funcs() == m.funcs().push(typeidx)
            &&& n.imports() == m.imports()
            &&& n.types() == m.types()
            &&& n.globals() == m.globals()
            &&& n.has_code(funcidx as int)
            &&& n.code(funcidx as int) == code
            &&& n.func_types()[funcidx as int] == typeidx
            &&& forall|f: int| m.has_code(f) ==> n.has_code(f) && n.code(f) == m.code(f)
        }),
{
    lemma_last_of_kind(m.sections, SectionKind::Code, m.sections.len());
    let k = m.section(SectionKind::Code).unwrap();
    match m.sections[k].value {
        SectionV::Code(size, v) => {
            lemma_with_section(
                m,
                k,
                SectionV::Code(
                    size,
                    Value {
                        value: v.value.push(code),
                        start_offset: v.start_offset,
                        end_offset: v.end_offset,
                    },
                ),
            );
        },
        _ => {},
    }
    let m1 = m.add_code(code);
    lemma_last_of_kind(m1.sections, SectionKind::Func, m1.sections.len());
    let j = m1.section(SectionKind::Func).unwrap();
    match m1.sections[j].value {
        SectionV::Func(size, v) => {
            lemma_with_section(m1, j, SectionV::Func(size, v.push(typeidx)));
        },
        _ => {},
    }
}

/// Adding a run of locals to a function changes the locals of that function
/// and nothing else of the index spaces.
pub proof fn lemma_add_func_local(m: ModuleV, funcidx: int, local: CodeLocal)
    ensures
        ({
            let n = m.add_func_local(funcidx, local);
            &&& n.imports() == m.imports()
            &&& n.types() == m.types()
            &&& n.funcs() == m.funcs()
            &&& n.globals() == m.globals()
            &&& n.codes().len() == m.codes().len()
            &&& m.has_code(funcidx) ==> n.code(funcidx).locals == m.code(funcidx).locals.push(local)
                && n.code(funcidx).body == m.code(funcidx).body
            &&& forall|f: int| m.has_code(f) && f != funcidx ==> n.code(f) == m.code(f)
        }),
{
    if m.has_code(funcidx) {
        lemma_last_of_kind(m.sections, SectionKind::Code, m.sections.len());
        let k = m.section(SectionKind::Code).unwrap();
        let i = funcidx - m.func_import_count();
        match m.sections[k].value {
            SectionV::Code(size, v) => {
                lemma_with_section(
                    m,
                    k,
                    SectionV::Code(
                        size,
                        Value {
                            value: v.value.update(
                                i,
                                CodeV {
                                    size: v.value[i].size,
                                    locals: v.value[i].locals.push(local),
                                    body: v.value[i].body,
                                },
                            ),
                            start_offset: v.start_offset,
                            end_offset: v.end_offset,
                        },
                    ),
                );
            },
            _ => {},
        }
    }
}

/// Adding a type changes the types alone.
pub proof fn lemma_add_type_frame(m: ModuleV, t: TypeV)
    ensures
        m.add_type(t).imports() == m.imports(),
        m.add_type(t).funcs() == m.funcs(),
        m.add_type(t).codes() == m.codes(),
        m.add_type(t).globals() == m.globals(),
        m.add_type(t).exports() == m.exports(),
        forall|kind: SectionKind| #[trigger] m.add_type(t).section(kind) == m.section(kind),
        m.section(SectionKind::Type) is None ==> m.add_type(t) == m,
{
    lemma_last_of_kind(m.sections, SectionKind::Type, m.sections.len());
    match m.section(SectionKind::Type) {
        Some(k) => {
            match m.sections[k].value {
                SectionV::Type(size, v) => {
                    lemma_with_section(m, k, SectionV::Type(size, v.push(t)));
                },
                _ => {},
            }
        },
        None => {},
    }
}

/// Where a position found among the sections lies once a section has been
/// put at `p`.
pub open spec fn shifted(found: Option<int>, p: int) -> Option<int> {
    match found {
        Some(k) => Some(
            if k < p {
                k
            } else {
                k + 1
            },
        ),
        None => None,
    }
}

/// Putting a section among the others moves the sections of every other
/// kind at most by one place.
pub proof fn lemma_insert_other_kind(
    s: Seq<Value<SectionV>>,
    p: int,
    node: Value<SectionV>,
    kind: SectionKind,
    n: nat,
)
    requires
        0 <= p <= s.len(),
        n <= s.len(),
        node.value.kind() != kind,
    ensures
        n <= p ==> last_of_kind(s.insert(p, node), kind, n) == last_of_kind(s, kind, n),
        n >= p ==> last_of_kind(s.insert(p, node), kind, n + 1) == shifted(
            last_of_kind(s, kind, n),
            p,
        ),
    decreases n,
{
    let t = s.insert(p, node);
    if n > 0 {
        lemma_insert_other_kind(s, p, node, kind, (n - 1) as nat);
    }
    if n <= p {
        if n > 0 {
            assert(t[n - 1] == s[n - 1]);
        }
    }
    if n >= p {
        if n == p {
            assert(t[p] == node);
            lemma_last_of_kind(s, kind, n);
        } else {
            assert(t[n as int] == s[n - 1]);
            lemma_last_of_kind(s, kind, (n - 1) as nat);
        }
    }
}

/// Putting a section among sections that hold none of its kind makes it the
/// section of its kind.
pub proof fn lemma_insert_same_kind(s: Seq<Value<SectionV>>, p: int, node: Value<SectionV>, n: nat)
    requires
        0 <= p <= s.len(),
        p <= n <= s.len(),
        last_of_kind(s, node.value.kind(), s.len()) is None,
    ensures
        last_of_kind(s.insert(p, node), node.value.kind(), n + 1) == Some(p),
    decreases n,
{
    let t = s.insert(p, node);
    let kind = node.value.kind();
    lemma_last_of_kind(s, kind, s.len());
    if n == p {
        assert(t[p] == node);
    } else {
        assert(t[n as int] == s[n - 1]);
        lemma_insert_same_kind(s, p, node, (n - 1) as nat);
    }
}

/// The place at which a section is put lies among the sections or behind
/// them.
pub proof fn lemma_insert_position(s: Seq<Value<SectionV>>, pos: usize, n: nat)
    requires
        n <= s.len(),
    ensures
        0 <= insert_position(s, pos, n) <= n,
    decreases n,
{
    if n > 0 && !(s[n - 1].value.pos() <= pos) {
        lemma_insert_position(s, pos, (n - 1) as nat);
    }
}

/// A module holds a global that was added as its last global, under the
/// index that `add_global` returned: the number of globals, imported or
/// not, that it held before. The rest of the index spaces is as it was.
pub proof fn lemma_add_global(m: ModuleV, g: GlobalV)
    ensures
        m.add_global(g).globals() == m.globals().push(g),
        m.add_global(g).globals()[m.globals().len() as int] == g,
        m.add_global(g).imports() == m.imports(),
        m.add_global(g).global_import_count() == m.global_import_count(),
        m.add_global(g).types() == m.types(),
        m.add_global(g).funcs() == m.funcs(),
        m.add_global(g).codes() == m.codes(),
        m.add_global(g).func_import_count() == m.func_import_count(),
{
    lemma_last_of_kind(m.sections, SectionKind::Global, m.sections.len());
    match m.section(SectionKind::Global) {
        Some(k) => {
            match m.sections[k].value {
                SectionV::Global(size, v) => {
                    lemma_with_section(m, k, SectionV::Global(size, v.push(g)));
                },
                _ => {},
            }
        },
        None => {
            let section = SectionV::Global(
                Value { value: 0, start_offset: 0, end_offset: 0 },
                seq![g],
            );
            let node = Value { value: section, start_offset: 0, end_offset: 0 };
            let s = m.sections;
            let p = insert_position(s, section.pos(), s.len());
            lemma_insert_position(s, section.pos(), s.len());
            let n = m.add_global(g);
            assert(n.sections == s.insert(p, node));
            lemma_insert_same_kind(s, p, node, s.len());
            assert(n.globals() =~= m.globals().push(g));
            lemma_insert_other_kind(s, p, node, SectionKind::Import, s.len());
            lemma_insert_other_kind(s, p, node, SectionKind::Type, s.len());
            lemma_insert_other_kind(s, p, node, SectionKind::Func, s.len());
            lemma_insert_other_kind(s, p, node, SectionKind::Code, s.len());
            lemma_last_of_kind(s, SectionKind::Import, s.len());
            lemma_last_of_kind(s, SectionKind::Type, s.len());
            lemma_last_of_kind(s, SectionKind::Func, s.len());
            lemma_last_of_kind(s, SectionKind::Code, s.len());
        },
    }
}

/// Whether an instruction is a `call`.
pub open spec fn is_call(i: InstrV) -> bool {
    i matches InstrV::Leaf(Instr::call(_))
}

/// The number of instructions of `node`: itself and those of its body.
pub open spec fn count_node(node: Value<InstrV>) -> nat
    decreases node,
{
    match nested_body(node.value) {
        Some(body) => 1 + count_instrs(body, body.len()),
        None => 1,
    }
}

/// The number of instructions among the first `n` of `body`, those of
/// their bodies included.
pub open spec fn count_instrs(body: Seq<Value<InstrV>>, n: nat) -> nat
    decreases body, n,
{
    if n == 0 || n > body.len() {
        0
    } else {
        count_instrs(body, (n - 1) as nat) + count_node(body[n - 1])
    }
}

/// The number of `call` instructions of `node`: itself or those of its body.
pub open spec fn calls_node(node: Value<InstrV>) -> nat
    decreases node,
{
    match nested_body(node.value) {
        Some(body) => count_calls(body, body.len()),
        None => if is_call(node.value) {
            1
        } else {
            0
        },
    }
}

/// The number of `call` instructions among the first `n` of `body`, those
/// of their bodies included.
pub open spec fn count_calls(body: Seq<Value<InstrV>>, n: nat) -> nat
    decreases body, n,
{
    if n == 0 || n > body.len() {
        0
    } else {
        count_calls(body, (n - 1) as nat) + calls_node(body[n - 1])
    }
}

/// What a visitor that marks calls asks for at `node`: `before` in front
/// of a `call` and `after` behind it, and nothing at any other instruction.
pub open spec fn mark_edit(node: Value<InstrV>, before: Value<InstrV>, after: Value<InstrV>) -> InstrEdit {
    if is_call(node.value) {
        InstrEdit { before: seq![before], after: seq![after], replace: None, stop: false }
    } else {
        InstrEdit { before: Seq::empty(), after: Seq::empty(), replace: None, stop: false }
    }
}

/// Whether `visits` is the walk of `body` by a visitor that marks calls.
pub open spec fn marks(
    body: Seq<Value<InstrV>>,
    visits: Seq<Visit>,
    before: Value<InstrV>,
    after: Value<InstrV>,
) -> bool
    decreases visits,
{
    &&& visits.len() == body.len()
    &&& forall|k: int|
        0 <= k < visits.len() ==> match #[trigger] visits[k] {
            Visit::Nested(inner) => nested_body(body[k].value) matches Some(b) && marks(
                b,
                inner,
                before,
                after,
            ),
            Visit::Leaf(e, _) => nested_body(body[k].value) is None && e == mark_edit(
                body[k],
                before,
                after,
            ),
        }
}

/// The instructions of two sequences put together are those of the one and
/// those of the other.
pub proof fn lemma_count_concat(a: Seq<Value<InstrV>>, b: Seq<Value<InstrV>>, n: nat)
    requires
        n <= b.len(),
    ensures
        count_instrs(a + b, a.len() + n) == count_instrs(a, a.len()) + count_instrs(b, n),
        count_calls(a + b, a.len() + n) == count_calls(a, a.len()) + count_calls(b, n),
    decreases n,
{
    if n == 0 {
        lemma_count_prefix(a + b, a, a.len());
    } else {
        lemma_count_concat(a, b, (n - 1) as nat);
        assert((a + b)[a.len() + n - 1] == b[n - 1]);
    }
}

/// The count of the first `n` instructions depends on those alone.
pub proof fn lemma_count_prefix(a: Seq<Value<InstrV>>, b: Seq<Value<InstrV>>, n: nat)
    requires
        n <= a.len(),
        n <= b.len(),
        forall|k: int| 0 <= k < n ==> a[k] == b[k],
    ensures
        count_instrs(a, n) == count_instrs(b, n),
        count_calls(a, n) == count_calls(b, n),
    decreases n,
{
    if n > 0 {
        lemma_count_prefix(a, b, (n - 1) as nat);
    }
}

/// Marking the calls of a body adds two instructions for each call: the
/// body that the traversal leaves holds as many instructions as the body
/// held, and two more for each of its `call` instructions.
pub proof fn lemma_marking_counts(
    body: Seq<Value<InstrV>>,
    visits: Seq<Visit>,
    before: Value<InstrV>,
    after: Value<InstrV>,
)
    requires
        marks(body, visits, before, after),
        nested_body(before.value) is None,
        nested_body(after.value) is None,
    ensures
        count_instrs(rewrite_body(body, visits), rewrite_body(body, visits).len()) == count_instrs(
            body,
            body.len(),
        ) + 2 * count_calls(body, body.len()),
    decreases visits, visits.len() + 1,
{
    lemma_marking_counts_prefix(body, visits, before, after, visits.len());
    assert(body.subrange(visits.len() as int, body.len() as int) =~= Seq::empty());
    assert(rewrite_body(body, visits) =~= rewrite_prefix(body, visits, visits.len()));
}

/// As `lemma_marking_counts`, for the first `n` instructions.
pub proof fn lemma_marking_counts_prefix(
    body: Seq<Value<InstrV>>,
    visits: Seq<Visit>,
    before: Value<InstrV>,
    after: Value<InstrV>,
    n: nat,
)
    requires
        marks(body, visits, before, after),
        nested_body(before.value) is None,
        nested_body(after.value) is None,
        n <= visits.len(),
    ensures
        count_instrs(rewrite_prefix(body, visits, n), rewrite_prefix(body, visits, n).len())
            == count_instrs(body, n) + 2 * count_calls(body, n),
    decreases visits, n,
{
    if n > 0 {
        lemma_marking_counts_prefix(body, visits, before, after, (n - 1) as nat);
        let done = rewrite_prefix(body, visits, (n - 1) as nat);
        let node = body[n - 1];
        let piece = rewrite_node(node, visits[n - 1]);
        lemma_count_concat(done, piece, piece.len());
        assert(done + piece =~= rewrite_prefix(body, visits, n));
        match visits[n - 1] {
            Visit::Nested(inner) => {
                let b = nested_body(node.value).unwrap();
                lemma_marking_counts(b, inner, before, after);
                let new_node = Value {
                    value: with_body(node.value, rewrite_body(b, inner)),
                    start_offset: node.start_offset,
                    end_offset: node.end_offset,
                };
                assert(piece =~= seq![new_node]);
                assert(nested_body(new_node.value) == Some(rewrite_body(b, inner)));
                reveal_with_fuel(count_instrs, 2);
                assert(count_instrs(piece, 1) == count_node(new_node));
                assert(count_node(new_node) == 1 + count_instrs(
                    rewrite_body(b, inner),
                    rewrite_body(b, inner).len(),
                ));
                assert(count_node(node) == 1 + count_instrs(b, b.len()));
                assert(calls_node(node) == count_calls(b, b.len()));
                assert(count_instrs(piece, piece.len()) == count_node(node) + 2 * calls_node(node));
            },
            Visit::Leaf(e, _) => {
                reveal_with_fuel(count_instrs, 4);
                if is_call(node.value) {
                    assert(piece =~= seq![before, node, after]);
                    assert(count_instrs(piece, 3) == 3);
                } else {
                    assert(piece =~= seq![node]);
                    assert(count_instrs(piece, 1) == 1);
                }
                assert(count_instrs(piece, piece.len()) == count_node(node) + 2 * calls_node(node));
            },
        }
        assert(count_instrs(body, n) == count_instrs(body, (n - 1) as nat) + count_node(node));
        assert(count_calls(body, n) == count_calls(body, (n - 1) as nat) + calls_node(node));
    }
}

/// What takes the place of the first instructions of a body stands at the
/// front of what takes the place of more of them.
pub proof fn lemma_rewrite_prefix_grows(
    body: Seq<Value<InstrV>>,
    visits: Seq<Visit>,
    n: nat,
    m: nat,
)
    requires
        n <= m <= visits.len(),
        m <= body.len(),
    ensures
        rewrite_prefix(body, visits, n).len() <= rewrite_prefix(body, visits, m).len(),
        rewrite_prefix(body, visits, m).subrange(0, rewrite_prefix(body, visits, n).len() as int)
            == rewrite_prefix(body, visits, n),
    decreases m,
{
    if n < m {
        lemma_rewrite_prefix_grows(body, visits, n, (m - 1) as nat);
        let a = rewrite_prefix(body, visits, n);
        let b = rewrite_prefix(body, visits, (m - 1) as nat);
        let c = rewrite_prefix(body, visits, m);
        assert(c.subrange(0, a.len() as int) =~= b.subrange(0, a.len() as int));
    } else {
        let a = rewrite_prefix(body, visits, n);
        assert(a.subrange(0, a.len() as int) =~= a);
    }
}

/// Marking the calls of a body puts each `call` between its markers: in the
/// body that the traversal leaves, what took the place of the `call` at
/// `k` is the one marker, the `call`, and the other marker, side by side.
pub proof fn lemma_marking_surrounds(
    body: Seq<Value<InstrV>>,
    visits: Seq<Visit>,
    before: Value<InstrV>,
    after: Value<InstrV>,
    k: int,
)
    requires
        marks(body, visits, before, after),
        0 <= k < body.len(),
        is_call(body[k].value),
    ensures
        ({
            let at = rewrite_prefix(body, visits, k as nat).len() as int;
            let r = rewrite_body(body, visits);
            &&& at + 3 <= r.len()
            &&& r[at] == before
            &&& r[at + 1] == body[k]
            &&& r[at + 2] == after
        }),
{
    let n = visits.len();
    assert(body.subrange(n as int, body.len() as int) =~= Seq::empty());
    assert(rewrite_body(body, visits) =~= rewrite_prefix(body, visits, n));
    lemma_rewrite_prefix_grows(body, visits, (k + 1) as nat, n);
    let a = rewrite_prefix(body, visits, k as nat);
    let b = rewrite_prefix(body, visits, (k + 1) as nat);
    let r = rewrite_prefix(body, visits, n);
    assert(visits[k] matches Visit::Leaf(e, _) && e == mark_edit(body[k], before, after));
    assert(rewrite_node(body[k], visits[k]) =~= seq![before, body[k], after]);
    assert(b =~= a + seq![before, body[k], after]);
    assert(r.subrange(0, b.len() as int) == b);
    let at = a.len() as int;
    assert(r[at] == r.subrange(0, b.len() as int)[at]);
    assert(r[at + 1] == r.subrange(0, b.len() as int)[at + 1]);
    assert(r[at + 2] == r.subrange(0, b.len() as int)[at + 2]);
}

/// Whether `visitor` answers in one way only: what it asks for at an
/// instruction, at a function and at a section, and the module that it
/// leaves, depend on what it was handed alone.
#[verifier::opaque]
pub open spec fn determined<V: Visitor>(visitor: &V) -> bool {
    &&& forall|
        m: ModuleV,
        funcidx: u32,
        node: Value<InstrV>,
        e1: InstrEdit,
        m1: ModuleV,
        e2: InstrEdit,
        m2: ModuleV,
    |
        #[trigger] instr_answer(visitor, m, funcidx, node, e1, m1) && #[trigger] instr_answer(
            visitor,
            m,
            funcidx,
            node,
            e2,
            m2,
        ) ==> e1 == e2 && m1 == m2
    &&& forall|m: ModuleV, funcidx: u32, r1: Option<CodeV>, r2: Option<CodeV>|
        #[trigger] code_answer(visitor, m, funcidx, r1) && #[trigger] code_answer(
            visitor,
            m,
            funcidx,
            r2,
        ) ==> r1 == r2
    &&& forall|m: ModuleV, section: SectionV, a1: Added, a2: Added|
        #[trigger] section_answer(visitor, m, section, a1) && #[trigger] section_answer(
            visitor,
            m,
            section,
            a2,
        ) ==> a1 == a2
}

/// What a walk says of the instruction at `k`.
pub proof fn lemma_visit_at<V: Visitor>(
    visitor: &V,
    funcidx: u32,
    body: Seq<Value<InstrV>>,
    walk: Seq<Visit>,
    start: ModuleV,
    k: int,
)
    requires
        fits(body, walk),
        answered(visitor, funcidx, body, walk, start),
        0 <= k < walk.len(),
    ensures
        visit_of(visitor, funcidx, body[k], walk[k], left_by(walk, k as nat, start)),
{
    reveal(visit_of);
    let v = walk[k];
}

/// A visitor that answers in one way only answers an instruction, handed
/// to it beside the same module, with the same edit, and leaves the same
/// module.
pub proof fn lemma_same_answer<V: Visitor>(
    visitor: &V,
    m: ModuleV,
    funcidx: u32,
    node: Value<InstrV>,
    e1: InstrEdit,
    m1: ModuleV,
    e2: InstrEdit,
    m2: ModuleV,
)
    requires
        determined(visitor),
        instr_answer(visitor, m, funcidx, node, e1, m1),
        instr_answer(visitor, m, funcidx, node, e2, m2),
    ensures
        e1 == e2,
        m1 == m2,
{
    reveal(determined);
}

/// Two visits of one instruction by a visitor that answers in one way
/// only, which came to it beside the same module, are the same.
pub proof fn lemma_same_visit<V: Visitor>(
    visitor: &V,
    funcidx: u32,
    node: Value<InstrV>,
    x: Visit,
    y: Visit,
    before: ModuleV,
)
    requires
        determined(visitor),
        visit_of(visitor, funcidx, node, x, before),
        visit_of(visitor, funcidx, node, y, before),
    ensures
        x == y,
    decreases x, 0nat,
{
    reveal(visit_of);
    match (x, y) {
        (Visit::Leaf(e1, m1), Visit::Leaf(e2, m2)) => {
            lemma_same_answer(visitor, before, funcidx, node, e1, m1, e2, m2);
        },
        (Visit::Nested(i), Visit::Nested(j)) => {
            let inner = nested_body(node.value).unwrap();
            lemma_same_walk(visitor, funcidx, inner, i, j, before);
        },
        _ => {},
    }
}

/// Two walks of one body by a visitor that answers in one way only, which
/// began beside the same module, agree on their first `n` visits.
pub proof fn lemma_same_visits<V: Visitor>(
    visitor: &V,
    funcidx: u32,
    body: Seq<Value<InstrV>>,
    a: Seq<Visit>,
    b: Seq<Visit>,
    start: ModuleV,
    n: nat,
)
    requires
        determined(visitor),
        forall|k: int|
            0 <= k < a.len() ==> visit_of(
                visitor,
                funcidx,
                body[k],
                #[trigger] a[k],
                left_by(a, k as nat, start),
            ),
        forall|k: int|
            0 <= k < b.len() ==> visit_of(
                visitor,
                funcidx,
                body[k],
                #[trigger] b[k],
                left_by(b, k as nat, start),
            ),
        n <= a.len(),
        n <= b.len(),
    ensures
        forall|k: int| 0 <= k < n ==> a[k] == b[k],
        left_by(a, n, start) == left_by(b, n, start),
    decreases a, n,
{
    if n > 0 {
        lemma_same_visits(visitor, funcidx, body, a, b, start, (n - 1) as nat);
        let k = n - 1;
        let before = left_by(a, k as nat, start);
        assert(visit_of(visitor, funcidx, body[k], a[k], before));
        assert(visit_of(visitor, funcidx, body[k], b[k], before));
        lemma_same_visit(visitor, funcidx, body[k], a[k], b[k], before);
    }
}

/// Two walks of one body by a visitor that answers in one way only, which
/// began beside the same module, are the same walk.
pub proof fn lemma_same_walk<V: Visitor>(
    visitor: &V,
    funcidx: u32,
    body: Seq<Value<InstrV>>,
    a: Seq<Visit>,
    b: Seq<Visit>,
    start: ModuleV,
)
    requires
        determined(visitor),
        fits(body, a),
        fits(body, b),
        answered(visitor, funcidx, body, a, start),
        answered(visitor, funcidx, body, b, start),
    ensures
        a == b,
    decreases a, a.len() + 1,
{
    let n = if a.len() <= b.len() {
        a.len()
    } else {
        b.len()
    };
    assert forall|k: int| 0 <= k < a.len() implies visit_of(
        visitor,
        funcidx,
        body[k],
        #[trigger] a[k],
        left_by(a, k as nat, start),
    ) by {
        lemma_visit_at(visitor, funcidx, body, a, start, k);
    }
    assert forall|k: int| 0 <= k < b.len() implies visit_of(
        visitor,
        funcidx,
        body[k],
        #[trigger] b[k],
        left_by(b, k as nat, start),
    ) by {
        lemma_visit_at(visitor, funcidx, body, b, start, k);
    }
    lemma_same_visits(visitor, funcidx, body, a, b, start, n);
    lemma_same_length(body, a, b);
    assert(a =~= b);
}

/// Two walks of one body that agree as far as the shorter one goes are
/// equally long.
pub proof fn lemma_same_length(body: Seq<Value<InstrV>>, a: Seq<Visit>, b: Seq<Visit>)
    requires
        fits(body, a),
        fits(body, b),
        forall|k: int| 0 <= k < a.len() && k < b.len() ==> a[k] == b[k],
    ensures
        a.len() == b.len(),
{
    if a.len() < b.len() {
        let k = a.len() - 1;
        assert(a.last() == a[k]);
        assert(b[k] == a[k]);
    }
    if b.len() < a.len() {
        let k = b.len() - 1;
        assert(b.last() == b[k]);
        assert(b[k] == a[k]);
    }
}

/// A visitor that answers in one way only, handed the same function
/// beside the same module, does the same: what happened at the function is
/// the same.
pub proof fn lemma_same_function<V: Visitor>(visitor: &V, x: FunctionVisit, y: FunctionVisit)
    requires
        determined(visitor),
        x.funcidx == y.funcidx,
        x.handed == y.handed,
        function_answered(visitor, x),
        function_answered(visitor, y),
        fits(x.taken(), x.walk),
        fits(y.taken(), y.walk),
        x.left == left_by(x.walk, x.walk.len(), x.emptied()),
        y.left == left_by(y.walk, y.walk.len(), y.emptied()),
    ensures
        x == y,
{
    assert(code_answer(visitor, x.handed, x.funcidx, x.replaced));
    assert(code_answer(visitor, x.handed, x.funcidx, y.replaced));
    assert(x.replaced == y.replaced) by {
        reveal(determined);
    }
    lemma_same_walk(visitor, x.funcidx, x.taken(), x.walk, y.walk, x.emptied());
}

/// Two passes of a visitor that answers in one way only, which began with
/// the same module, agree on the first `n` functions.
pub proof fn lemma_same_functions<V: Visitor>(
    visitor: &V,
    start: ModuleV,
    a: Seq<FunctionVisit>,
    b: Seq<FunctionVisit>,
    n: nat,
)
    requires
        determined(visitor),
        chained(start, a),
        chained(start, b),
        forall|k: int| 0 <= k < a.len() ==> function_answered(visitor, #[trigger] a[k]),
        forall|k: int| 0 <= k < b.len() ==> function_answered(visitor, #[trigger] b[k]),
        n <= a.len(),
        n <= b.len(),
        forall|k: int| 0 <= k < n ==> a[k].funcidx == b[k].funcidx,
    ensures
        forall|k: int| 0 <= k < n ==> a[k] == b[k],
    decreases n,
{
    if n > 0 {
        lemma_same_functions(visitor, start, a, b, (n - 1) as nat);
        let k = n - 1;
        let x = a[k];
        let y = b[k];
        assert(x.handed == after_functions(start, a, k as nat));
        assert(y.handed == after_functions(start, b, k as nat));
        lemma_after_functions(start, a, k as nat);
        lemma_after_functions(start, b, k as nat);
        if k > 0 {
            assert(a[k - 1] == b[k - 1]);
        }
        lemma_same_function(visitor, x, y);
    }
}

/// Two passes of a visitor that answers in one way only, over the same
/// module, add the same to the first `n` sections.
pub proof fn lemma_same_added<V: Visitor>(
    visitor: &V,
    m: ModuleV,
    a: Seq<Added>,
    b: Seq<Added>,
    n: nat,
)
    requires
        determined(visitor),
        a.len() == m.sections.len(),
        b.len() == m.sections.len(),
        forall|j: int|
            0 <= j < a.len() ==> section_answer(
                visitor,
                module_with_added(m, a.take(j)),
                m.sections[j].value,
                #[trigger] a[j],
            ),
        forall|j: int|
            0 <= j < b.len() ==> section_answer(
                visitor,
                module_with_added(m, b.take(j)),
                m.sections[j].value,
                #[trigger] b[j],
            ),
        n <= a.len(),
    ensures
        a.take(n as int) == b.take(n as int),
    decreases n,
{
    if n > 0 {
        lemma_same_added(visitor, m, a, b, (n - 1) as nat);
        let j = n - 1;
        assert(section_answer(visitor, module_with_added(m, a.take(j)), m.sections[j].value, a[j]));
        assert(section_answer(visitor, module_with_added(m, b.take(j)), m.sections[j].value, b[j]));
        assert(a[j] == b[j]) by {
            reveal(determined);
        }
        assert(a.take(n as int) =~= a.take(j).push(a[j]));
        assert(b.take(n as int) =~= b.take(j).push(b[j]));
    } else {
        assert(a.take(0) =~= b.take(0));
    }
}

/// A pass is determined by what its visitor answers: two passes of a
/// visitor that answers in one way only, over the same module, went the
/// same way and leave the same module.
pub proof fn lemma_pass_determined<V: Visitor>(
    visitor: &V,
    m: ModuleV,
    a: TraverseLog,
    x: ModuleV,
    b: TraverseLog,
    y: ModuleV,
)
    requires
        determined(visitor),
        pass_of(visitor, m, a, x),
        pass_of(visitor, m, b, y),
    ensures
        a == b,
        x == y,
{
    lemma_same_added(visitor, m, a.added, b.added, a.added.len());
    assert(a.added =~= a.added.take(a.added.len() as int));
    assert(b.added =~= b.added.take(b.added.len() as int));
    assert(a.walked == b.walked);
    assert(a.functions.len() == a.visited().len());
    assert(b.functions.len() == b.visited().len());
    assert forall|k: int| 0 <= k < a.functions.len() implies a.functions[k].funcidx
        == b.functions[k].funcidx by {
        assert(a.visited()[k] == a.functions[k].funcidx);
        assert(b.visited()[k] == b.functions[k].funcidx);
    }
    lemma_same_functions(visitor, a.walked, a.functions, b.functions, a.functions.len());
    assert(a.functions =~= b.functions);
    lemma_after_functions(a.walked, a.functions, a.functions.len());
    lemma_after_functions(b.walked, b.functions, b.functions.len());
}

/// The number of globals of a module: those that it imports and those
/// that it defines.
pub open spec fn global_count(m: ModuleV) -> nat {
    m.global_import_count() + m.globals().len()
}

/// No addition is lost: where each function of a pass leaves one global
/// more than the module held when the function was handed to the visitor,
/// the first `n` functions leave `n` globals more than the pass began with,
/// and each function was handed a module with another number of globals,
/// which is the index of the global that is added next.
pub proof fn lemma_globals_add_up(start: ModuleV, functions: Seq<FunctionVisit>, n: nat)
    requires
        chained(start, functions),
        n <= functions.len(),
        forall|k: int|
            0 <= k < functions.len() ==> global_count((#[trigger] functions[k]).done())
                == global_count(functions[k].handed) + 1,
    ensures
        global_count(after_functions(start, functions, n)) == global_count(start) + n,
        forall|k: int|
            0 <= k < n ==> global_count((#[trigger] functions[k]).handed) == global_count(start)
                + k,
    decreases n,
{
    lemma_after_functions(start, functions, n);
    if n > 0 {
        lemma_globals_add_up(start, functions, (n - 1) as nat);
        let k = n - 1;
        let f = functions[k];
        assert(f.handed == after_functions(start, functions, k as nat));
    }
}

/// A pass over a module with `N` functions whose visitor adds one global
/// at each function, and nothing to the sections, leaves `N` globals more
/// than the module held.
pub proof fn lemma_pass_adds_up<V: Visitor>(
    visitor: &V,
    m: ModuleV,
    log: TraverseLog,
    after: ModuleV,
)
    requires
        pass_of(visitor, m, log, after),
        m.func_import_count() + m.codes().len() <= 0x1_0000_0000,
        forall|j: int| 0 <= j < log.added.len() ==> (#[trigger] log.added[j]).is_empty(),
        forall|k: int|
            0 <= k < log.functions.len() ==> global_count((#[trigger] log.functions[k]).done())
                == global_count(log.functions[k].handed) + 1,
    ensures
        log.functions.len() == m.codes().len(),
        global_count(after) == global_count(m) + m.codes().len(),
{
    lemma_nothing_added(m, log.added);
    lemma_traversal_complete(m);
    assert(log.visited().len() == log.functions.len());
    lemma_globals_add_up(m, log.functions, log.functions.len());
}

} // verus!
