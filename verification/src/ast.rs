//! The in-memory form of a WebAssembly module, and its mathematical model.
//!
//! Every type that owns a sequence, a string or a map has a model type whose
//! name ends in `V`: the same shape over `Seq`, `Map` and `Seq<char>`. The
//! contracts of the library speak of these models, which `deep_view` gives.

use crate::coredump_types::{CoreStack, CoreStackV, ProcessInfo, ProcessInfoV};
use std::collections::HashMap;
use vstd::prelude::*;
use vstd::slice::slice_to_vec;

verus! {

/// A node of the tree together with the byte range it was decoded from. A
/// node that was built in memory has both offsets at zero.
#[derive(Debug, PartialEq, Clone, Copy)]
pub struct Value<T> {
    pub value: T,
    pub start_offset: usize,
    pub end_offset: usize,
}

impl<T> Value<T> {
    /// A value that was not read from an input: its place is zero.
    pub fn new(value: T) -> (r: Self)
        ensures
            r == (Value { value, start_offset: 0, end_offset: 0 }),
    {
        Self { start_offset: 0, end_offset: 0, value }
    }
}

impl<T: DeepView> DeepView for Value<T> {
    type V = Value<T::V>;

    open spec fn deep_view(&self) -> Value<T::V> {
        Value {
            value: self.value.deep_view(),
            start_offset: self.start_offset,
            end_offset: self.end_offset,
        }
    }
}

/// The types of numbers.
#[derive(Debug, Clone, Copy, PartialEq, Eq, Structural)]
pub enum NumType {
    I32,
    I64,
    F32,
    F64,
}

/// The type of a value: a number or a reference.
#[derive(Debug, Clone, Copy, PartialEq, Eq, Structural)]
pub enum ValueType {
    NumType(NumType),
}

/// The types of references.
#[derive(Debug, Clone, Copy, PartialEq, Eq, Structural)]
pub enum Reftype {
    Func,
    Extern,
}

/// The size of a table or a memory: the least, and the most where there is
/// one.
#[derive(Debug, Clone, Copy, PartialEq, Eq, Structural)]
pub struct Limits {
    pub min: u32,
    pub max: Option<u32>,
}

/// A table: the type of its elements and its size.
#[derive(Debug, Clone, Copy, PartialEq, Eq, Structural)]
pub struct Table {
    pub reftype: Reftype,
    pub limits: Limits,
}

/// A memory: its least size, with the place where it was read, and its
/// greatest size.
#[derive(Debug, Clone, Copy, PartialEq)]
pub struct Memory {
    pub min: Value<u32>,
    pub max: Option<u32>,
}

/// A run of locals of one type.
#[derive(Debug, Clone, Copy, PartialEq, Eq, Structural)]
pub struct CodeLocal {
    pub count: u32,
    pub value_type: ValueType,
}

/// Whether a data segment is put into memory when the module starts.
#[derive(Debug, Clone, Copy, PartialEq, Eq, Structural)]
pub enum DataSegmentMode {
    Passive,
    Active,
}

/// What a structured instruction gives: nothing, one value, or what a function
/// type says.
#[derive(Debug, Clone, Copy, PartialEq, Eq, Structural)]
pub enum BlockType {
    Empty,
    ValueType(ValueType),
    Typeidx(u32),
}

/// The type of a global and whether it can be written.
#[derive(Debug, Clone, Copy, PartialEq, Eq, Structural)]
pub struct GlobalType {
    pub valtype: ValueType,
    pub mutable: bool,
}

/// What is exported: its kind and its index.
#[derive(Debug, Clone, Copy, PartialEq, Eq, Structural)]
pub enum ExportDescr {
    Func(u32),
    Table(u32),
    Mem(u32),
    Global(u32),
}

/// What is imported: a function of a type, a table, a memory or a global.
#[derive(Debug, Clone, Copy, PartialEq)]
pub enum ImportType {
    Func(u32),
    Table(Table),
    Memory(Memory),
    Global(GlobalType),
}

impl DeepView for ValueType {
    type V = ValueType;

    open spec fn deep_view(&self) -> ValueType {
        *self
    }
}

impl DeepView for Table {
    type V = Table;

    open spec fn deep_view(&self) -> Table {
        *self
    }
}

impl DeepView for Memory {
    type V = Memory;

    open spec fn deep_view(&self) -> Memory {
        *self
    }
}

impl DeepView for CodeLocal {
    type V = CodeLocal;

    open spec fn deep_view(&self) -> CodeLocal {
        *self
    }
}

/// A vector of plain values is its own model.
pub proof fn lemma_plain_view<T: DeepView<V = T>>(v: Vec<T>)
    requires
        forall|x: T| #[trigger] x.deep_view() == x,
    ensures
        v.deep_view() == v@,
{
    assert(v.deep_view() =~= v@);
}

/// An instruction sequence with the byte range it was decoded from.
pub type Expr = Value<Vec<Value<Instr>>>;

/// One instruction. A floating-point constant holds the bits of its IEEE 754
/// form. The structured instructions own their bodies, which end in `end`.
#[allow(non_camel_case_types)]
#[derive(Debug, PartialEq)]
pub enum Instr {
    unreachable,
    nop,
    call(Value<u32>),
    call_indirect(u32, u32),
    drop,
    select,
    local_get(u32),
    local_set(u32),
    local_tee(u32),
    global_get(u32),
    global_set(u32),
    table_get(u32),
    table_set(u32),
    i32_load(Value<u32>, u32),
    i64_load(Value<u32>, u32),
    f32_load(Value<u32>, u32),
    f64_load(Value<u32>, u32),
    i32_load8_s(Value<u32>, u32),
    i32_load8_u(Value<u32>, u32),
    i32_load16_s(Value<u32>, u32),
    i32_load16_u(Value<u32>, u32),
    i64_load8_s(Value<u32>, u32),
    i64_load8_u(Value<u32>, u32),
    i64_load16_s(Value<u32>, u32),
    i64_load16_u(Value<u32>, u32),
    i64_load32_s(Value<u32>, u32),
    i64_load32_u(Value<u32>, u32),
    i32_store(Value<u32>, u32),
    i64_store(Value<u32>, u32),
    f32_store(Value<u32>, u32),
    f64_store(Value<u32>, u32),
    i32_store8(Value<u32>, u32),
    i32_store16(Value<u32>, u32),
    i64_store8(Value<u32>, u32),
    i64_store16(Value<u32>, u32),
    i64_store32(Value<u32>, u32),
    memory_size(u8),
    memory_grow(u8),
    memory_copy(u8, u8),
    memory_fill(u8),
    br(u32),
    br_if(u32),
    br_table(Vec<u32>, u32),
    else_end,
    end,
    Return,
    Block(BlockType, Expr),
    Loop(BlockType, Expr),
    If(BlockType, Expr),
    i32_const(i64),
    i64_const(i64),
    f32_const(u32),
    f64_const(u64),
    i32_eqz,
    i32_eq,
    i32_ne,
    i32_lt_s,
    i32_lt_u,
    i32_gt_s,
    i32_gt_u,
    i32_le_s,
    i32_le_u,
    i32_ge_s,
    i32_ge_u,
    i64_eqz,
    i64_eq,
    i64_ne,
    i64_lt_s,
    i64_lt_u,
    i64_gt_s,
    i64_gt_u,
    i64_le_s,
    i64_le_u,
    i64_ge_s,
    i64_ge_u,
    f32_eq,
    f32_ne,
    f32_lt,
    f32_gt,
    f32_le,
    f32_ge,
    f64_eq,
    f64_ne,
    f64_lt,
    f64_gt,
    f64_le,
    f64_ge,
    i32_clz,
    i32_ctz,
    i32_popcnt,
    i32_add,
    i32_sub,
    i32_mul,
    i32_div_s,
    i32_div_u,
    i32_rem_s,
    i32_rem_u,
    i32_and,
    i32_or,
    i32_xor,
    i32_shl,
    i32_shr_s,
    i32_shr_u,
    i32_rotl,
    i32_rotr,
    i64_clz,
    i64_ctz,
    i64_popcnt,
    i64_add,
    i64_sub,
    i64_mul,
    i64_div_s,
    i64_div_u,
    i64_rem_s,
    i64_rem_u,
    i64_and,
    i64_or,
    i64_xor,
    i64_shl,
    i64_shr_s,
    i64_shr_u,
    i64_rotl,
    i64_rotr,
    f32_abs,
    f32_neg,
    f32_ceil,
    f32_floor,
    f32_trunc,
    f32_nearest,
    f32_sqrt,
    f32_add,
    f32_sub,
    f32_mul,
    f32_div,
    f32_min,
    f32_max,
    f32_copysign,
    f64_abs,
    f64_neg,
    f64_ceil,
    f64_floor,
    f64_trunc,
    f64_nearest,
    f64_sqrt,
    f64_add,
    f64_sub,
    f64_mul,
    f64_div,
    f64_min,
    f64_max,
    f64_copysign,
    i32_wrap_i64,
    i32_trunc_f32_s,
    i32_trunc_f32_u,
    i32_trunc_f64_s,
    i32_trunc_f64_u,
    i32_trunc_sat_f32_s,
    i32_trunc_sat_f32_u,
    i32_trunc_sat_f64_s,
    i32_trunc_sat_f64_u,
    i64_extend_i32_s,
    i64_extend_i32_u,
    i64_trunc_f32_s,
    i64_trunc_f32_u,
    i64_trunc_f64_s,
    i64_trunc_f64_u,
    i64_trunc_sat_f32_s,
    i64_trunc_sat_f32_u,
    i64_trunc_sat_f64_s,
    i64_trunc_sat_f64_u,
    f32_convert_i32_s,
    f32_convert_i32_u,
    f32_convert_i64_s,
    f32_convert_i64_u,
    f32_demote_f64,
    f64_convert_i32_s,
    f64_convert_i32_u,
    f64_convert_i64_s,
    f64_convert_i64_u,
    f64_promote_f32,
    i32_reinterpret_f32,
    i64_reinterpret_f64,
    f32_reinterpret_i32,
    f64_reinterpret_i64,
    i32_extend8_s,
    i32_extend16_s,
    i64_extend8_s,
    i64_extend16_s,
    i64_extend32_s,
}

/// The model of an instruction. An instruction that owns no sequence is its
/// own model.
pub enum InstrV {
    Leaf(Instr),
    BrTable(Seq<u32>, u32),
    Block(BlockType, ExprV),
    Loop(BlockType, ExprV),
    If(BlockType, ExprV),
}

/// The model of an instruction sequence.
pub type ExprV = Value<Seq<Value<InstrV>>>;

/// The model of `i`.
pub open spec fn instr_view(i: Instr) -> InstrV
    decreases i,
{
    match i {
        Instr::br_table(labels, default) => InstrV::BrTable(labels@, default),
        Instr::Block(t, body) => InstrV::Block(t, expr_view(body)),
        Instr::Loop(t, body) => InstrV::Loop(t, expr_view(body)),
        Instr::If(t, body) => InstrV::If(t, expr_view(body)),
        _ => InstrV::Leaf(i),
    }
}

/// The model of `e`.
pub open spec fn expr_view(e: Expr) -> ExprV
    decreases e,
{
    Value {
        value: nodes_view(e.value@, e.value@.len()),
        start_offset: e.start_offset,
        end_offset: e.end_offset,
    }
}

/// The models of the first `n` nodes of `s`.
pub open spec fn nodes_view(s: Seq<Value<Instr>>, n: nat) -> Seq<Value<InstrV>>
    decreases s, n,
{
    if n == 0 || n > s.len() {
        Seq::empty()
    } else {
        nodes_view(s, (n - 1) as nat).push(
            Value {
                value: instr_view(s[n - 1].value),
                start_offset: s[n - 1].start_offset,
                end_offset: s[n - 1].end_offset,
            },
        )
    }
}

impl DeepView for Instr {
    type V = InstrV;

    open spec fn deep_view(&self) -> InstrV {
        instr_view(*self)
    }
}

/// `nodes_view` has one model for each node, in order.
pub proof fn lemma_nodes_view(s: Seq<Value<Instr>>, n: nat)
    requires
        n <= s.len(),
    ensures
        nodes_view(s, n).len() == n,
        forall|k: int| 0 <= k < n ==> (#[trigger] nodes_view(s, n)[k]) == s[k].deep_view(),
    decreases n,
{
    if n > 0 {
        lemma_nodes_view(s, (n - 1) as nat);
    }
}

/// The model of a body is the sequence of its nodes' models.
pub proof fn lemma_expr_view(e: Expr)
    ensures
        expr_view(e) == e.deep_view(),
        e.deep_view().value.len() == e.value@.len(),
{
    lemma_nodes_view(e.value@, e.value@.len());
    assert(nodes_view(e.value@, e.value@.len()) =~= e.value.deep_view());
}

/// The model of a structured instruction holds the model of its body.
pub proof fn lemma_instr_view(i: Instr)
    ensures
        i.deep_view() == match i {
            Instr::br_table(labels, default) => InstrV::BrTable(labels@, default),
            Instr::Block(t, body) => InstrV::Block(t, body.deep_view()),
            Instr::Loop(t, body) => InstrV::Loop(t, body.deep_view()),
            Instr::If(t, body) => InstrV::If(t, body.deep_view()),
            _ => InstrV::Leaf(i),
        },
{
    match i {
        Instr::Block(_, body) => lemma_expr_view(body),
        Instr::Loop(_, body) => lemma_expr_view(body),
        Instr::If(_, body) => lemma_expr_view(body),
        _ => {},
    }
}

/// A copy of `v`.
pub fn clone_indices(v: &Vec<u32>) -> (r: Vec<u32>)
    ensures
        r@ == v@,
{
    let mut r: Vec<u32> = Vec::new();
    let mut k: usize = 0;
    while k < v.len()
        invariant
            k <= v.len(),
            r@ == v@.subrange(0, k as int),
        decreases v.len() - k,
    {
        r.push(v[k]);
        k += 1;
        assert(r@ =~= v@.subrange(0, k as int));
    }
    assert(v@.subrange(0, k as int) =~= v@);
    r
}

/// A copy of `e`, nested bodies included.
pub fn clone_expr(e: &Expr) -> (r: Expr)
    ensures
        r.deep_view() == e.deep_view(),
    decreases *e,
{
    let mut nodes: Vec<Value<Instr>> = Vec::new();
    let mut k: usize = 0;
    while k < e.value.len()
        invariant
            k <= e.value.len(),
            nodes@.len() == k,
            forall|j: int| 0 <= j < k ==> (#[trigger] nodes@[j]).deep_view() == e.value@[j].deep_view(),
        decreases e.value.len() - k,
    {
        let node = &e.value[k];
        nodes.push(
            Value {
                value: clone_instr(&node.value),
                start_offset: node.start_offset,
                end_offset: node.end_offset,
            },
        );
        k += 1;
    }
    let r = Value { value: nodes, start_offset: e.start_offset, end_offset: e.end_offset };
    assert(r.deep_view().value =~= e.deep_view().value);
    r
}

/// A copy of `i`, nested bodies included.
pub fn clone_instr(i: &Instr) -> (r: Instr)
    ensures
        r.deep_view() == i.deep_view(),
    decreases *i,
{
    proof {
        lemma_instr_view(*i);
    }
    let r = match i {
        Instr::unreachable => Instr::unreachable,
        Instr::nop => Instr::nop,
        Instr::call(a0) => Instr::call(*a0),
        Instr::call_indirect(a0, a1) => Instr::call_indirect(*a0, *a1),
        Instr::drop => Instr::drop,
        Instr::select => Instr::select,
        Instr::local_get(a0) => Instr::local_get(*a0),
        Instr::local_set(a0) => Instr::local_set(*a0),
        Instr::local_tee(a0) => Instr::local_tee(*a0),
        Instr::global_get(a0) => Instr::global_get(*a0),
        Instr::global_set(a0) => Instr::global_set(*a0),
        Instr::table_get(a0) => Instr::table_get(*a0),
        Instr::table_set(a0) => Instr::table_set(*a0),
        Instr::i32_load(a0, a1) => Instr::i32_load(*a0, *a1),
        Instr::i64_load(a0, a1) => Instr::i64_load(*a0, *a1),
        Instr::f32_load(a0, a1) => Instr::f32_load(*a0, *a1),
        Instr::f64_load(a0, a1) => Instr::f64_load(*a0, *a1),
        Instr::i32_load8_s(a0, a1) => Instr::i32_load8_s(*a0, *a1),
        Instr::i32_load8_u(a0, a1) => Instr::i32_load8_u(*a0, *a1),
        Instr::i32_load16_s(a0, a1) => Instr::i32_load16_s(*a0, *a1),
        Instr::i32_load16_u(a0, a1) => Instr::i32_load16_u(*a0, *a1),
        Instr::i64_load8_s(a0, a1) => Instr::i64_load8_s(*a0, *a1),
        Instr::i64_load8_u(a0, a1) => Instr::i64_load8_u(*a0, *a1),
        Instr::i64_load16_s(a0, a1) => Instr::i64_load16_s(*a0, *a1),
        Instr::i64_load16_u(a0, a1) => Instr::i64_load16_u(*a0, *a1),
        Instr::i64_load32_s(a0, a1) => Instr::i64_load32_s(*a0, *a1),
        Instr::i64_load32_u(a0, a1) => Instr::i64_load32_u(*a0, *a1),
        Instr::i32_store(a0, a1) => Instr::i32_store(*a0, *a1),
        Instr::i64_store(a0, a1) => Instr::i64_store(*a0, *a1),
        Instr::f32_store(a0, a1) => Instr::f32_store(*a0, *a1),
        Instr::f64_store(a0, a1) => Instr::f64_store(*a0, *a1),
        Instr::i32_store8(a0, a1) => Instr::i32_store8(*a0, *a1),
        Instr::i32_store16(a0, a1) => Instr::i32_store16(*a0, *a1),
        Instr::i64_store8(a0, a1) => Instr::i64_store8(*a0, *a1),
        Instr::i64_store16(a0, a1) => Instr::i64_store16(*a0, *a1),
        Instr::i64_store32(a0, a1) => Instr::i64_store32(*a0, *a1),
        Instr::memory_size(a0) => Instr::memory_size(*a0),
        Instr::memory_grow(a0) => Instr::memory_grow(*a0),
        Instr::memory_copy(a0, a1) => Instr::memory_copy(*a0, *a1),
        Instr::memory_fill(a0) => Instr::memory_fill(*a0),
        Instr::br(a0) => Instr::br(*a0),
        Instr::br_if(a0) => Instr::br_if(*a0),
        Instr::br_table(labels, default) => Instr::br_table(clone_indices(labels), *default),
        Instr::else_end => Instr::else_end,
        Instr::end => Instr::end,
        Instr::Return => Instr::Return,
        Instr::Block(t, body) => Instr::Block(*t, clone_expr(body)),
        Instr::Loop(t, body) => Instr::Loop(*t, clone_expr(body)),
        Instr::If(t, body) => Instr::If(*t, clone_expr(body)),
        Instr::i32_const(a0) => Instr::i32_const(*a0),
        Instr::i64_const(a0) => Instr::i64_const(*a0),
        Instr::f32_const(a0) => Instr::f32_const(*a0),
        Instr::f64_const(a0) => Instr::f64_const(*a0),
        Instr::i32_eqz => Instr::i32_eqz,
        Instr::i32_eq => Instr::i32_eq,
        Instr::i32_ne => Instr::i32_ne,
        Instr::i32_lt_s => Instr::i32_lt_s,
        Instr::i32_lt_u => Instr::i32_lt_u,
        Instr::i32_gt_s => Instr::i32_gt_s,
        Instr::i32_gt_u => Instr::i32_gt_u,
        Instr::i32_le_s => Instr::i32_le_s,
        Instr::i32_le_u => Instr::i32_le_u,
        Instr::i32_ge_s => Instr::i32_ge_s,
        Instr::i32_ge_u => Instr::i32_ge_u,
        Instr::i64_eqz => Instr::i64_eqz,
        Instr::i64_eq => Instr::i64_eq,
        Instr::i64_ne => Instr::i64_ne,
        Instr::i64_lt_s => Instr::i64_lt_s,
        Instr::i64_lt_u => Instr::i64_lt_u,
        Instr::i64_gt_s => Instr::i64_gt_s,
        Instr::i64_gt_u => Instr::i64_gt_u,
        Instr::i64_le_s => Instr::i64_le_s,
        Instr::i64_le_u => Instr::i64_le_u,
        Instr::i64_ge_s => Instr::i64_ge_s,
        Instr::i64_ge_u => Instr::i64_ge_u,
        Instr::f32_eq => Instr::f32_eq,
        Instr::f32_ne => Instr::f32_ne,
        Instr::f32_lt => Instr::f32_lt,
        Instr::f32_gt => Instr::f32_gt,
        Instr::f32_le => Instr::f32_le,
        Instr::f32_ge => Instr::f32_ge,
        Instr::f64_eq => Instr::f64_eq,
        Instr::f64_ne => Instr::f64_ne,
        Instr::f64_lt => Instr::f64_lt,
        Instr::f64_gt => Instr::f64_gt,
        Instr::f64_le => Instr::f64_le,
        Instr::f64_ge => Instr::f64_ge,
        Instr::i32_clz => Instr::i32_clz,
        Instr::i32_ctz => Instr::i32_ctz,
        Instr::i32_popcnt => Instr::i32_popcnt,
        Instr::i32_add => Instr::i32_add,
        Instr::i32_sub => Instr::i32_sub,
        Instr::i32_mul => Instr::i32_mul,
        Instr::i32_div_s => Instr::i32_div_s,
        Instr::i32_div_u => Instr::i32_div_u,
        Instr::i32_rem_s => Instr::i32_rem_s,
        Instr::i32_rem_u => Instr::i32_rem_u,
        Instr::i32_and => Instr::i32_and,
        Instr::i32_or => Instr::i32_or,
        Instr::i32_xor => Instr::i32_xor,
        Instr::i32_shl => Instr::i32_shl,
        Instr::i32_shr_s => Instr::i32_shr_s,
        Instr::i32_shr_u => Instr::i32_shr_u,
        Instr::i32_rotl => Instr::i32_rotl,
        Instr::i32_rotr => Instr::i32_rotr,
        Instr::i64_clz => Instr::i64_clz,
        Instr::i64_ctz => Instr::i64_ctz,
        Instr::i64_popcnt => Instr::i64_popcnt,
        Instr::i64_add => Instr::i64_add,
        Instr::i64_sub => Instr::i64_sub,
        Instr::i64_mul => Instr::i64_mul,
        Instr::i64_div_s => Instr::i64_div_s,
        Instr::i64_div_u => Instr::i64_div_u,
        Instr::i64_rem_s => Instr::i64_rem_s,
        Instr::i64_rem_u => Instr::i64_rem_u,
        Instr::i64_and => Instr::i64_and,
        Instr::i64_or => Instr::i64_or,
        Instr::i64_xor => Instr::i64_xor,
        Instr::i64_shl => Instr::i64_shl,
        Instr::i64_shr_s => Instr::i64_shr_s,
        Instr::i64_shr_u => Instr::i64_shr_u,
        Instr::i64_rotl => Instr::i64_rotl,
        Instr::i64_rotr => Instr::i64_rotr,
        Instr::f32_abs => Instr::f32_abs,
        Instr::f32_neg => Instr::f32_neg,
        Instr::f32_ceil => Instr::f32_ceil,
        Instr::f32_floor => Instr::f32_floor,
        Instr::f32_trunc => Instr::f32_trunc,
        Instr::f32_nearest => Instr::f32_nearest,
        Instr::f32_sqrt => Instr::f32_sqrt,
        Instr::f32_add => Instr::f32_add,
        Instr::f32_sub => Instr::f32_sub,
        Instr::f32_mul => Instr::f32_mul,
        Instr::f32_div => Instr::f32_div,
        Instr::f32_min => Instr::f32_min,
        Instr::f32_max => Instr::f32_max,
        Instr::f32_copysign => Instr::f32_copysign,
        Instr::f64_abs => Instr::f64_abs,
        Instr::f64_neg => Instr::f64_neg,
        Instr::f64_ceil => Instr::f64_ceil,
        Instr::f64_floor => Instr::f64_floor,
        Instr::f64_trunc => Instr::f64_trunc,
        Instr::f64_nearest => Instr::f64_nearest,
        Instr::f64_sqrt => Instr::f64_sqrt,
        Instr::f64_add => Instr::f64_add,
        Instr::f64_sub => Instr::f64_sub,
        Instr::f64_mul => Instr::f64_mul,
        Instr::f64_div => Instr::f64_div,
        Instr::f64_min => Instr::f64_min,
        Instr::f64_max => Instr::f64_max,
        Instr::f64_copysign => Instr::f64_copysign,
        Instr::i32_wrap_i64 => Instr::i32_wrap_i64,
        Instr::i32_trunc_f32_s => Instr::i32_trunc_f32_s,
        Instr::i32_trunc_f32_u => Instr::i32_trunc_f32_u,
        Instr::i32_trunc_f64_s => Instr::i32_trunc_f64_s,
        Instr::i32_trunc_f64_u => Instr::i32_trunc_f64_u,
        Instr::i32_trunc_sat_f32_s => Instr::i32_trunc_sat_f32_s,
        Instr::i32_trunc_sat_f32_u => Instr::i32_trunc_sat_f32_u,
        Instr::i32_trunc_sat_f64_s => Instr::i32_trunc_sat_f64_s,
        Instr::i32_trunc_sat_f64_u => Instr::i32_trunc_sat_f64_u,
        Instr::i64_extend_i32_s => Instr::i64_extend_i32_s,
        Instr::i64_extend_i32_u => Instr::i64_extend_i32_u,
        Instr::i64_trunc_f32_s => Instr::i64_trunc_f32_s,
        Instr::i64_trunc_f32_u => Instr::i64_trunc_f32_u,
        Instr::i64_trunc_f64_s => Instr::i64_trunc_f64_s,
        Instr::i64_trunc_f64_u => Instr::i64_trunc_f64_u,
        Instr::i64_trunc_sat_f32_s => Instr::i64_trunc_sat_f32_s,
        Instr::i64_trunc_sat_f32_u => Instr::i64_trunc_sat_f32_u,
        Instr::i64_trunc_sat_f64_s => Instr::i64_trunc_sat_f64_s,
        Instr::i64_trunc_sat_f64_u => Instr::i64_trunc_sat_f64_u,
        Instr::f32_convert_i32_s => Instr::f32_convert_i32_s,
        Instr::f32_convert_i32_u => Instr::f32_convert_i32_u,
        Instr::f32_convert_i64_s => Instr::f32_convert_i64_s,
        Instr::f32_convert_i64_u => Instr::f32_convert_i64_u,
        Instr::f32_demote_f64 => Instr::f32_demote_f64,
        Instr::f64_convert_i32_s => Instr::f64_convert_i32_s,
        Instr::f64_convert_i32_u => Instr::f64_convert_i32_u,
        Instr::f64_convert_i64_s => Instr::f64_convert_i64_s,
        Instr::f64_convert_i64_u => Instr::f64_convert_i64_u,
        Instr::f64_promote_f32 => Instr::f64_promote_f32,
        Instr::i32_reinterpret_f32 => Instr::i32_reinterpret_f32,
        Instr::i64_reinterpret_f64 => Instr::i64_reinterpret_f64,
        Instr::f32_reinterpret_i32 => Instr::f32_reinterpret_i32,
        Instr::f64_reinterpret_i64 => Instr::f64_reinterpret_i64,
        Instr::i32_extend8_s => Instr::i32_extend8_s,
        Instr::i32_extend16_s => Instr::i32_extend16_s,
        Instr::i64_extend8_s => Instr::i64_extend8_s,
        Instr::i64_extend16_s => Instr::i64_extend16_s,
        Instr::i64_extend32_s => Instr::i64_extend32_s,
    };
    proof {
        lemma_instr_view(r);
    }
    r
}

impl Clone for Instr {
    fn clone(&self) -> (r: Self)
        ensures
            r.deep_view() == self.deep_view(),
    {
        clone_instr(self)
    }
}

/// A function type: the types of its parameters and of its results.
#[derive(Debug, PartialEq)]
pub struct Type {
    pub params: Vec<ValueType>,
    pub results: Vec<ValueType>,
}

/// What a `Type` holds.
pub struct TypeV {
    pub params: Seq<ValueType>,
    pub results: Seq<ValueType>,
}

impl DeepView for Type {
    type V = TypeV;

    open spec fn deep_view(&self) -> TypeV {
        TypeV { params: self.params@, results: self.results@ }
    }
}

impl Clone for Type {
    fn clone(&self) -> (r: Self)
        ensures
            r.deep_view() == self.deep_view(),
    {
        Type {
            params: slice_to_vec(self.params.as_slice()),
            results: slice_to_vec(self.results.as_slice()),
        }
    }
}

/// An import: the module and the name it comes from, and what it is.
#[derive(Debug, PartialEq)]
pub struct Import {
    pub module: String,
    pub name: String,
    pub import_type: ImportType,
}

/// What an `Import` holds.
pub struct ImportV {
    pub module: Seq<char>,
    pub name: Seq<char>,
    pub import_type: ImportType,
}

impl DeepView for Import {
    type V = ImportV;

    open spec fn deep_view(&self) -> ImportV {
        ImportV { module: self.module@, name: self.name@, import_type: self.import_type }
    }
}

impl Clone for Import {
    fn clone(&self) -> (r: Self)
        ensures
            r.deep_view() == self.deep_view(),
    {
        Import {
            module: self.module.clone(),
            name: self.name.clone(),
            import_type: self.import_type,
        }
    }
}

/// An export: its name and what it stands for.
#[derive(Debug, PartialEq)]
pub struct Export {
    pub name: String,
    pub descr: ExportDescr,
}

/// What an `Export` holds.
pub struct ExportV {
    pub name: Seq<char>,
    pub descr: ExportDescr,
}

impl DeepView for Export {
    type V = ExportV;

    open spec fn deep_view(&self) -> ExportV {
        ExportV { name: self.name@, descr: self.descr }
    }
}

impl Clone for Export {
    fn clone(&self) -> (r: Self)
        ensures
            r.deep_view() == self.deep_view(),
    {
        Export { name: self.name.clone(), descr: self.descr }
    }
}

/// A global: its type and the expression that gives its first value.
#[derive(Debug, PartialEq)]
pub struct Global {
    pub global_type: GlobalType,
    pub expr: Expr,
}

/// What a `Global` holds.
pub struct GlobalV {
    pub global_type: GlobalType,
    pub expr: ExprV,
}

impl DeepView for Global {
    type V = GlobalV;

    open spec fn deep_view(&self) -> GlobalV {
        GlobalV { global_type: self.global_type, expr: self.expr.deep_view() }
    }
}

impl Clone for Global {
    fn clone(&self) -> (r: Self)
        ensures
            r.deep_view() == self.deep_view(),
    {
        Global { global_type: self.global_type, expr: clone_expr(&self.expr) }
    }
}

/// The body of a function: its locals in runs of one type, and its
/// instructions. `size` is what was decoded and is not used to encode.
#[derive(Debug, PartialEq)]
pub struct Code {
    pub size: Value<u32>,
    pub locals: Vec<CodeLocal>,
    pub body: Expr,
}

/// What a `Code` holds.
pub struct CodeV {
    pub size: Value<u32>,
    pub locals: Seq<CodeLocal>,
    pub body: ExprV,
}

impl DeepView for Code {
    type V = CodeV;

    open spec fn deep_view(&self) -> CodeV {
        CodeV { size: self.size, locals: self.locals@, body: self.body.deep_view() }
    }
}

impl Clone for Code {
    fn clone(&self) -> (r: Self)
        ensures
            r.deep_view() == self.deep_view(),
    {
        Code {
            size: self.size,
            locals: slice_to_vec(self.locals.as_slice()),
            body: clone_expr(&self.body),
        }
    }
}

/// A data segment: its bytes, and where it is active the expression that gives
/// their place.
#[derive(Debug, PartialEq)]
pub struct DataSegment {
    pub offset: Option<Expr>,
    pub bytes: Vec<u8>,
    pub mode: DataSegmentMode,
}

/// What a `DataSegment` holds.
pub struct DataSegmentV {
    pub offset: Option<ExprV>,
    pub bytes: Seq<u8>,
    pub mode: DataSegmentMode,
}

impl DeepView for DataSegment {
    type V = DataSegmentV;

    open spec fn deep_view(&self) -> DataSegmentV {
        DataSegmentV { offset: self.offset.deep_view(), bytes: self.bytes@, mode: self.mode }
    }
}

impl Clone for DataSegment {
    fn clone(&self) -> (r: Self)
        ensures
            r.deep_view() == self.deep_view(),
    {
        DataSegment {
            offset: match &self.offset {
                Some(e) => Some(clone_expr(e)),
                None => None,
            },
            bytes: slice_to_vec(self.bytes.as_slice()),
            mode: self.mode,
        }
    }
}

/// An element segment: functions for a table, and the expression that gives
/// their place.
#[derive(Debug, PartialEq)]
pub enum Element {
    FuncActive(Expr, Vec<u32>),
}

/// What an `Element` holds.
pub enum ElementV {
    FuncActive(ExprV, Seq<u32>),
}

impl DeepView for Element {
    type V = ElementV;

    open spec fn deep_view(&self) -> ElementV {
        match self {
            Element::FuncActive(offset, funcs) => ElementV::FuncActive(
                offset.deep_view(),
                funcs@,
            ),
        }
    }
}

impl Clone for Element {
    fn clone(&self) -> (r: Self)
        ensures
            r.deep_view() == self.deep_view(),
    {
        match self {
            Element::FuncActive(offset, funcs) => Element::FuncActive(
                clone_expr(offset),
                slice_to_vec(funcs.as_slice()),
            ),
        }
    }
}

/// The names of the `name` custom section.
#[derive(Debug, Clone, PartialEq)]
pub struct DebugNames {
    pub module: Option<String>,
    pub func_names: Option<HashMap<u32, String>>,
    pub func_local_names: Option<HashMap<u32, HashMap<u32, String>>>,
}

/// What `DebugNames` hold.
pub struct DebugNamesV {
    pub module: Option<Seq<char>>,
    pub func_names: Option<Map<u32, Seq<char>>>,
    pub func_local_names: Option<Map<u32, Map<u32, Seq<char>>>>,
}

/// The model of a map of names.
pub open spec fn names_view(m: HashMap<u32, String>) -> Map<u32, Seq<char>> {
    m@.map_values(|s: String| s@)
}

impl DeepView for DebugNames {
    type V = DebugNamesV;

    open spec fn deep_view(&self) -> DebugNamesV {
        DebugNamesV {
            module: match self.module {
                Some(s) => Some(s@),
                None => None,
            },
            func_names: match self.func_names {
                Some(m) => Some(names_view(m)),
                None => None,
            },
            func_local_names: match self.func_local_names {
                Some(m) => Some(m@.map_values(|l: HashMap<u32, String>| names_view(l))),
                None => None,
            },
        }
    }
}

/// The constant of the first `i32.const` among `s[from..]`.
pub open spec fn first_const(s: Seq<Value<InstrV>>, from: int) -> Option<i64>
    decreases s.len() - from,
{
    if from < 0 || from >= s.len() {
        None
    } else {
        match s[from].value {
            InstrV::Leaf(Instr::i32_const(v)) => Some(v),
            _ => first_const(s, from + 1),
        }
    }
}

/// The constant of the first `i32.const` of `expr`, if it holds one.
pub fn find_const(expr: &Expr) -> (r: Option<i64>)
    ensures
        r == first_const(expr.deep_view().value, 0),
{
    let ghost s = expr.deep_view().value;
    let mut k: usize = 0;
    while k < expr.value.len()
        invariant
            k <= expr.value.len(),
            s == expr.deep_view().value,
            s.len() == expr.value@.len(),
            first_const(s, 0) == first_const(s, k as int),
        decreases expr.value.len() - k,
    {
        assert(s[k as int].value == expr.value@[k as int].value.deep_view());
        proof {
            lemma_instr_view(expr.value@[k as int].value);
        }
        match &expr.value[k].value {
            Instr::i32_const(v) => {
                return Some(*v);
            },
            _ => {},
        }
        k += 1;
    }
    None
}

impl DataSegmentV {
    /// The address at which an active segment is placed: the constant of the
    /// first `i32.const` of its offset expression.
    pub open spec fn const_offset(self) -> Option<i64> {
        match self.offset {
            Some(e) => first_const(e.value, 0),
            None => None,
        }
    }
}

impl DataSegment {
    /// The address at which the segment is placed, if its offset expression
    /// holds a constant.
    pub fn const_offset(&self) -> (r: Option<i64>)
        ensures
            r == self.deep_view().const_offset(),
    {
        match &self.offset {
            Some(e) => find_const(e),
            None => None,
        }
    }

    /// The address at which an active segment is placed.
    pub fn compute_offset(&self) -> (r: i64)
        requires
            self.deep_view().const_offset() is Some,
        ensures
            self.deep_view().const_offset() == Some(r),
    {
        match self.const_offset() {
            Some(v) => v,
            None => 0,
        }
    }
}

impl Global {
    /// The value of an immutable global that is initialised by an
    /// `i32.const`: the constant of the first one in its initialiser.
    pub fn compute_value(&self) -> (r: i64)
        requires
            !self.global_type.mutable,
            first_const(self.deep_view().expr.value, 0) is Some,
        ensures
            first_const(self.deep_view().expr.value, 0) == Some(r),
    {
        match find_const(&self.expr) {
            Some(v) => v,
            None => 0,
        }
    }
}

/// The contents of a custom section, by kind.
#[derive(Debug, Clone, PartialEq)]
pub enum CustomSection {
    Unknown(String, Vec<u8>),
    Name(DebugNames),
    CoredumpCore(ProcessInfo),
    CoredumpCoreStack(CoreStack),
    BuildId(Vec<u8>),
}

/// What a `CustomSection` holds.
pub enum CustomSectionV {
    Unknown(Seq<char>, Seq<u8>),
    Name(DebugNamesV),
    CoredumpCore(ProcessInfoV),
    CoredumpCoreStack(CoreStackV),
    BuildId(Seq<u8>),
}

impl DeepView for CustomSection {
    type V = CustomSectionV;

    open spec fn deep_view(&self) -> CustomSectionV {
        match self {
            CustomSection::Unknown(name, bytes) => CustomSectionV::Unknown(name@, bytes@),
            CustomSection::Name(names) => CustomSectionV::Name(names.deep_view()),
            CustomSection::CoredumpCore(info) => CustomSectionV::CoredumpCore(info.deep_view()),
            CustomSection::CoredumpCoreStack(stack) => CustomSectionV::CoredumpCoreStack(
                stack.deep_view(),
            ),
            CustomSection::BuildId(id) => CustomSectionV::BuildId(id@),
        }
    }
}

/// A section of a module: the size that was decoded, which is not used to
/// encode, and its contents. `Unknown` holds the section's id, the size
/// that was decoded and its bytes.
#[derive(Debug, Clone, PartialEq)]
pub enum Section {
    Memory(Value<u32>, Vec<Memory>),
    Data(Value<u32>, Vec<DataSegment>),
    Code(Value<u32>, Value<Vec<Code>>),
    Type(Value<u32>, Vec<Type>),
    Func(Value<u32>, Vec<u32>),
    Import(Value<u32>, Vec<Import>),
    Table(Value<u32>, Vec<Table>),
    Export(Value<u32>, Vec<Export>),
    Element(Value<u32>, Vec<Element>),
    Custom(Value<u32>, CustomSection),
    Global(Value<u32>, Vec<Global>),
    Unknown(u8, u32, Vec<u8>),
}

/// What a `Section` holds.
pub enum SectionV {
    Memory(Value<u32>, Seq<Memory>),
    Data(Value<u32>, Seq<DataSegmentV>),
    Code(Value<u32>, Value<Seq<CodeV>>),
    Type(Value<u32>, Seq<TypeV>),
    Func(Value<u32>, Seq<u32>),
    Import(Value<u32>, Seq<ImportV>),
    Table(Value<u32>, Seq<Table>),
    Export(Value<u32>, Seq<ExportV>),
    Element(Value<u32>, Seq<ElementV>),
    Custom(Value<u32>, CustomSectionV),
    Global(Value<u32>, Seq<GlobalV>),
    Unknown(u8, u32, Seq<u8>),
}

impl DeepView for Section {
    type V = SectionV;

    open spec fn deep_view(&self) -> SectionV {
        match self {
            Section::Memory(size, content) => SectionV::Memory(*size, content@),
            Section::Data(size, content) => SectionV::Data(*size, content.deep_view()),
            Section::Code(size, content) => SectionV::Code(*size, content.deep_view()),
            Section::Type(size, content) => SectionV::Type(*size, content.deep_view()),
            Section::Func(size, content) => SectionV::Func(*size, content@),
            Section::Import(size, content) => SectionV::Import(*size, content.deep_view()),
            Section::Table(size, content) => SectionV::Table(*size, content@),
            Section::Export(size, content) => SectionV::Export(*size, content.deep_view()),
            Section::Element(size, content) => SectionV::Element(*size, content.deep_view()),
            Section::Custom(size, content) => SectionV::Custom(*size, content.deep_view()),
            Section::Global(size, content) => SectionV::Global(*size, content.deep_view()),
            Section::Unknown(id, size, bytes) => SectionV::Unknown(*id, *size, bytes@),
        }
    }
}

impl SectionV {
    /// Where the section stands among the others when they are put in order:
    /// the standard sections by their id, the custom and unknown ones last.
    pub open spec fn pos(self) -> usize {
        match self {
            SectionV::Type(..) => 1,
            SectionV::Import(..) => 2,
            SectionV::Func(..) => 3,
            SectionV::Table(..) => 4,
            SectionV::Memory(..) => 5,
            SectionV::Global(..) => 6,
            SectionV::Export(..) => 7,
            SectionV::Element(..) => 9,
            SectionV::Code(..) => 10,
            SectionV::Data(..) => 11,
            SectionV::Custom(..) | SectionV::Unknown(..) => 99,
        }
    }
}

/// The kinds of section.
#[derive(Debug, Clone, Copy, PartialEq, Eq, Structural)]
pub enum SectionKind {
    Custom,
    Type,
    Import,
    Func,
    Table,
    Memory,
    Global,
    Export,
    Element,
    Code,
    Data,
    Unknown,
}

impl SectionV {
    /// The kind of the section.
    pub open spec fn kind(self) -> SectionKind {
        match self {
            SectionV::Custom(..) => SectionKind::Custom,
            SectionV::Type(..) => SectionKind::Type,
            SectionV::Import(..) => SectionKind::Import,
            SectionV::Func(..) => SectionKind::Func,
            SectionV::Table(..) => SectionKind::Table,
            SectionV::Memory(..) => SectionKind::Memory,
            SectionV::Global(..) => SectionKind::Global,
            SectionV::Export(..) => SectionKind::Export,
            SectionV::Element(..) => SectionKind::Element,
            SectionV::Code(..) => SectionKind::Code,
            SectionV::Data(..) => SectionKind::Data,
            SectionV::Unknown(..) => SectionKind::Unknown,
        }
    }
}

impl Section {
    /// The kind of the section.
    pub fn kind(&self) -> (r: SectionKind)
        ensures
            r == self.deep_view().kind(),
    {
        match self {
            Section::Custom(..) => SectionKind::Custom,
            Section::Type(..) => SectionKind::Type,
            Section::Import(..) => SectionKind::Import,
            Section::Func(..) => SectionKind::Func,
            Section::Table(..) => SectionKind::Table,
            Section::Memory(..) => SectionKind::Memory,
            Section::Global(..) => SectionKind::Global,
            Section::Export(..) => SectionKind::Export,
            Section::Element(..) => SectionKind::Element,
            Section::Code(..) => SectionKind::Code,
            Section::Data(..) => SectionKind::Data,
            Section::Unknown(..) => SectionKind::Unknown,
        }
    }
}

impl Value<Section> {
    /// The place of the section in the order in which sections are kept.
    pub fn pos(&self) -> (r: usize)
        ensures
            r == self.value.deep_view().pos(),
    {
        match self.value {
            Section::Type(..) => 1,
            Section::Import(..) => 2,
            Section::Func(..) => 3,
            Section::Table(..) => 4,
            Section::Memory(..) => 5,
            Section::Global(..) => 6,
            Section::Export(..) => 7,
            Section::Element(..) => 9,
            Section::Code(..) => 10,
            Section::Data(..) => 11,
            Section::Custom(..) | Section::Unknown(..) => 99,
        }
    }
}

/// A module: its sections, in the order in which they are encoded.
#[derive(Debug, Clone, PartialEq)]
pub struct Module {
    pub sections: Vec<Value<Section>>,
}

/// What a `Module` holds: its sections in their order.
pub struct ModuleV {
    pub sections: Seq<Value<SectionV>>,
}

impl DeepView for Module {
    type V = ModuleV;

    open spec fn deep_view(&self) -> ModuleV {
        ModuleV { sections: self.sections.deep_view() }
    }
}

} // verus!
