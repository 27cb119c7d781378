//! The table of opcodes: which byte stands for which instruction.

use crate::ast::{Instr, Value};
use vstd::prelude::*;

verus! {

/// The instruction without immediates that the byte `op` stands for.
pub open spec fn plain_instr(op: u8) -> Option<Instr> {
    match op {
        0x00 => Some(Instr::unreachable),
        0x01 => Some(Instr::nop),
        0x05 => Some(Instr::else_end),
        0x0b => Some(Instr::end),
        0x0f => Some(Instr::Return),
        0x1a => Some(Instr::drop),
        0x1b => Some(Instr::select),
        0x45 => Some(Instr::i32_eqz),
        0x46 => Some(Instr::i32_eq),
        0x47 => Some(Instr::i32_ne),
        0x48 => Some(Instr::i32_lt_s),
        0x49 => Some(Instr::i32_lt_u),
        0x4a => Some(Instr::i32_gt_s),
        0x4b => Some(Instr::i32_gt_u),
        0x4c => Some(Instr::i32_le_s),
        0x4d => Some(Instr::i32_le_u),
        0x4e => Some(Instr::i32_ge_s),
        0x4f => Some(Instr::i32_ge_u),
        0x50 => Some(Instr::i64_eqz),
        0x51 => Some(Instr::i64_eq),
        0x52 => Some(Instr::i64_ne),
        0x53 => Some(Instr::i64_lt_s),
        0x54 => Some(Instr::i64_lt_u),
        0x55 => Some(Instr::i64_gt_s),
        0x56 => Some(Instr::i64_gt_u),
        0x57 => Some(Instr::i64_le_s),
        0x58 => Some(Instr::i64_le_u),
        0x59 => Some(Instr::i64_ge_s),
        0x5a => Some(Instr::i64_ge_u),
        0x5b => Some(Instr::f32_eq),
        0x5c => Some(Instr::f32_ne),
        0x5d => Some(Instr::f32_lt),
        0x5e => Some(Instr::f32_gt),
        0x5f => Some(Instr::f32_le),
        0x60 => Some(Instr::f32_ge),
        0x61 => Some(Instr::f64_eq),
        0x62 => Some(Instr::f64_ne),
        0x63 => Some(Instr::f64_lt),
        0x64 => Some(Instr::f64_gt),
        0x65 => Some(Instr::f64_le),
        0x66 => Some(Instr::f64_ge),
        0x67 => Some(Instr::i32_clz),
        0x68 => Some(Instr::i32_ctz),
        0x69 => Some(Instr::i32_popcnt),
        0x6a => Some(Instr::i32_add),
        0x6b => Some(Instr::i32_sub),
        0x6c => Some(Instr::i32_mul),
        0x6d => Some(Instr::i32_div_s),
        0x6e => Some(Instr::i32_div_u),
        0x6f => Some(Instr::i32_rem_s),
        0x70 => Some(Instr::i32_rem_u),
        0x71 => Some(Instr::i32_and),
        0x72 => Some(Instr::i32_or),
        0x73 => Some(Instr::i32_xor),
        0x74 => Some(Instr::i32_shl),
        0x75 => Some(Instr::i32_shr_s),
        0x76 => Some(Instr::i32_shr_u),
        0x77 => Some(Instr::i32_rotl),
        0x78 => Some(Instr::i32_rotr),
        0x79 => Some(Instr::i64_clz),
        0x7a => Some(Instr::i64_ctz),
        0x7b => Some(Instr::i64_popcnt),
        0x7c => Some(Instr::i64_add),
        0x7d => Some(Instr::i64_sub),
        0x7e => Some(Instr::i64_mul),
        0x7f => Some(Instr::i64_div_s),
        0x80 => Some(Instr::i64_div_u),
        0x81 => Some(Instr::i64_rem_s),
        0x82 => Some(Instr::i64_rem_u),
        0x83 => Some(Instr::i64_and),
        0x84 => Some(Instr::i64_or),
        0x85 => Some(Instr::i64_xor),
        0x86 => Some(Instr::i64_shl),
        0x87 => Some(Instr::i64_shr_s),
        0x88 => Some(Instr::i64_shr_u),
        0x89 => Some(Instr::i64_rotl),
        0x8a => Some(Instr::i64_rotr),
        0x8b => Some(Instr::f32_abs),
        0x8c => Some(Instr::f32_neg),
        0x8d => Some(Instr::f32_ceil),
        0x8e => Some(Instr::f32_floor),
        0x8f => Some(Instr::f32_trunc),
        0x90 => Some(Instr::f32_nearest),
        0x91 => Some(Instr::f32_sqrt),
        0x92 => Some(Instr::f32_add),
        0x93 => Some(Instr::f32_sub),
        0x94 => Some(Instr::f32_mul),
        0x95 => Some(Instr::f32_div),
        0x96 => Some(Instr::f32_min),
        0x97 => Some(Instr::f32_max),
        0x98 => Some(Instr::f32_copysign),
        0x99 => Some(Instr::f64_abs),
        0x9a => Some(Instr::f64_neg),
        0x9b => Some(Instr::f64_ceil),
        0x9c => Some(Instr::f64_floor),
        0x9d => Some(Instr::f64_trunc),
        0x9e => Some(Instr::f64_nearest),
        0x9f => Some(Instr::f64_sqrt),
        0xa0 => Some(Instr::f64_add),
        0xa1 => Some(Instr::f64_sub),
        0xa2 => Some(Instr::f64_mul),
        0xa3 => Some(Instr::f64_div),
        0xa4 => Some(Instr::f64_min),
        0xa5 => Some(Instr::f64_max),
        0xa6 => Some(Instr::f64_copysign),
        0xa7 => Some(Instr::i32_wrap_i64),
        0xa8 => Some(Instr::i32_trunc_f32_s),
        0xa9 => Some(Instr::i32_trunc_f32_u),
        0xaa => Some(Instr::i32_trunc_f64_s),
        0xab => Some(Instr::i32_trunc_f64_u),
        0xac => Some(Instr::i64_extend_i32_s),
        0xad => Some(Instr::i64_extend_i32_u),
        0xae => Some(Instr::i64_trunc_f32_s),
        0xaf => Some(Instr::i64_trunc_f32_u),
        0xb0 => Some(Instr::i64_trunc_f64_s),
        0xb1 => Some(Instr::i64_trunc_f64_u),
        0xb2 => Some(Instr::f32_convert_i32_s),
        0xb3 => Some(Instr::f32_convert_i32_u),
        0xb4 => Some(Instr::f32_convert_i64_s),
        0xb5 => Some(Instr::f32_convert_i64_u),
        0xb6 => Some(Instr::f32_demote_f64),
        0xb7 => Some(Instr::f64_convert_i32_s),
        0xb8 => Some(Instr::f64_convert_i32_u),
        0xb9 => Some(Instr::f64_convert_i64_s),
        0xba => Some(Instr::f64_convert_i64_u),
        0xbb => Some(Instr::f64_promote_f32),
        0xbc => Some(Instr::i32_reinterpret_f32),
        0xbd => Some(Instr::i64_reinterpret_f64),
        0xbe => Some(Instr::f32_reinterpret_i32),
        0xbf => Some(Instr::f64_reinterpret_i64),
        0xc0 => Some(Instr::i32_extend8_s),
        0xc1 => Some(Instr::i32_extend16_s),
        0xc2 => Some(Instr::i64_extend8_s),
        0xc3 => Some(Instr::i64_extend16_s),
        0xc4 => Some(Instr::i64_extend32_s),
        _ => None,
    }
}

/// The instruction with one index `x` that the byte `op` stands for.
pub open spec fn index_instr(op: u8, x: u32) -> Option<Instr> {
    match op {
        0x0c => Some(Instr::br(x)),
        0x0d => Some(Instr::br_if(x)),
        0x20 => Some(Instr::local_get(x)),
        0x21 => Some(Instr::local_set(x)),
        0x22 => Some(Instr::local_tee(x)),
        0x23 => Some(Instr::global_get(x)),
        0x24 => Some(Instr::global_set(x)),
        0x25 => Some(Instr::table_get(x)),
        0x26 => Some(Instr::table_set(x)),
        _ => None,
    }
}

/// The load or store that the byte `op` stands for, with its two immediates in
/// the order of the encoding.
pub open spec fn memory_instr(op: u8, a: Value<u32>, b: u32) -> Option<Instr> {
    match op {
        0x28 => Some(Instr::i32_load(a, b)),
        0x29 => Some(Instr::i64_load(a, b)),
        0x2a => Some(Instr::f32_load(a, b)),
        0x2b => Some(Instr::f64_load(a, b)),
        0x2c => Some(Instr::i32_load8_s(a, b)),
        0x2d => Some(Instr::i32_load8_u(a, b)),
        0x2e => Some(Instr::i32_load16_s(a, b)),
        0x2f => Some(Instr::i32_load16_u(a, b)),
        0x30 => Some(Instr::i64_load8_s(a, b)),
        0x31 => Some(Instr::i64_load8_u(a, b)),
        0x32 => Some(Instr::i64_load16_s(a, b)),
        0x33 => Some(Instr::i64_load16_u(a, b)),
        0x34 => Some(Instr::i64_load32_s(a, b)),
        0x35 => Some(Instr::i64_load32_u(a, b)),
        0x36 => Some(Instr::i32_store(a, b)),
        0x37 => Some(Instr::i64_store(a, b)),
        0x38 => Some(Instr::f32_store(a, b)),
        0x39 => Some(Instr::f64_store(a, b)),
        0x3a => Some(Instr::i32_store8(a, b)),
        0x3b => Some(Instr::i32_store16(a, b)),
        0x3c => Some(Instr::i64_store8(a, b)),
        0x3d => Some(Instr::i64_store16(a, b)),
        0x3e => Some(Instr::i64_store32(a, b)),
        _ => None,
    }
}

/// The instruction without immediates that the opcode `op` stands for.
pub fn decode_plain(op: u8) -> (r: Option<Instr>)
    ensures
        r == plain_instr(op),
{
    match op {
        0x00 => Some(Instr::unreachable),
        0x01 => Some(Instr::nop),
        0x05 => Some(Instr::else_end),
        0x0b => Some(Instr::end),
        0x0f => Some(Instr::Return),
        0x1a => Some(Instr::drop),
        0x1b => Some(Instr::select),
        0x45 => Some(Instr::i32_eqz),
        0x46 => Some(Instr::i32_eq),
        0x47 => Some(Instr::i32_ne),
        0x48 => Some(Instr::i32_lt_s),
        0x49 => Some(Instr::i32_lt_u),
        0x4a => Some(Instr::i32_gt_s),
        0x4b => Some(Instr::i32_gt_u),
        0x4c => Some(Instr::i32_le_s),
        0x4d => Some(Instr::i32_le_u),
        0x4e => Some(Instr::i32_ge_s),
        0x4f => Some(Instr::i32_ge_u),
        0x50 => Some(Instr::i64_eqz),
        0x51 => Some(Instr::i64_eq),
        0x52 => Some(Instr::i64_ne),
        0x53 => Some(Instr::i64_lt_s),
        0x54 => Some(Instr::i64_lt_u),
        0x55 => Some(Instr::i64_gt_s),
        0x56 => Some(Instr::i64_gt_u),
        0x57 => Some(Instr::i64_le_s),
        0x58 => Some(Instr::i64_le_u),
        0x59 => Some(Instr::i64_ge_s),
        0x5a => Some(Instr::i64_ge_u),
        0x5b => Some(Instr::f32_eq),
        0x5c => Some(Instr::f32_ne),
        0x5d => Some(Instr::f32_lt),
        0x5e => Some(Instr::f32_gt),
        0x5f => Some(Instr::f32_le),
        0x60 => Some(Instr::f32_ge),
        0x61 => Some(Instr::f64_eq),
        0x62 => Some(Instr::f64_ne),
        0x63 => Some(Instr::f64_lt),
        0x64 => Some(Instr::f64_gt),
        0x65 => Some(Instr::f64_le),
        0x66 => Some(Instr::f64_ge),
        0x67 => Some(Instr::i32_clz),
        0x68 => Some(Instr::i32_ctz),
        0x69 => Some(Instr::i32_popcnt),
        0x6a => Some(Instr::i32_add),
        0x6b => Some(Instr::i32_sub),
        0x6c => Some(Instr::i32_mul),
        0x6d => Some(Instr::i32_div_s),
        0x6e => Some(Instr::i32_div_u),
        0x6f => Some(Instr::i32_rem_s),
        0x70 => Some(Instr::i32_rem_u),
        0x71 => Some(Instr::i32_and),
        0x72 => Some(Instr::i32_or),
        0x73 => Some(Instr::i32_xor),
        0x74 => Some(Instr::i32_shl),
        0x75 => Some(Instr::i32_shr_s),
        0x76 => Some(Instr::i32_shr_u),
        0x77 => Some(Instr::i32_rotl),
        0x78 => Some(Instr::i32_rotr),
        0x79 => Some(Instr::i64_clz),
        0x7a => Some(Instr::i64_ctz),
        0x7b => Some(Instr::i64_popcnt),
        0x7c => Some(Instr::i64_add),
        0x7d => Some(Instr::i64_sub),
        0x7e => Some(Instr::i64_mul),
        0x7f => Some(Instr::i64_div_s),
        0x80 => Some(Instr::i64_div_u),
        0x81 => Some(Instr::i64_rem_s),
        0x82 => Some(Instr::i64_rem_u),
        0x83 => Some(Instr::i64_and),
        0x84 => Some(Instr::i64_or),
        0x85 => Some(Instr::i64_xor),
        0x86 => Some(Instr::i64_shl),
        0x87 => Some(Instr::i64_shr_s),
        0x88 => Some(Instr::i64_shr_u),
        0x89 => Some(Instr::i64_rotl),
        0x8a => Some(Instr::i64_rotr),
        0x8b => Some(Instr::f32_abs),
        0x8c => Some(Instr::f32_neg),
        0x8d => Some(Instr::f32_ceil),
        0x8e => Some(Instr::f32_floor),
        0x8f => Some(Instr::f32_trunc),
        0x90 => Some(Instr::f32_nearest),
        0x91 => Some(Instr::f32_sqrt),
        0x92 => Some(Instr::f32_add),
        0x93 => Some(Instr::f32_sub),
        0x94 => Some(Instr::f32_mul),
        0x95 => Some(Instr::f32_div),
        0x96 => Some(Instr::f32_min),
        0x97 => Some(Instr::f32_max),
        0x98 => Some(Instr::f32_copysign),
        0x99 => Some(Instr::f64_abs),
        0x9a => Some(Instr::f64_neg),
        0x9b => Some(Instr::f64_ceil),
        0x9c => Some(Instr::f64_floor),
        0x9d => Some(Instr::f64_trunc),
        0x9e => Some(Instr::f64_nearest),
        0x9f => Some(Instr::f64_sqrt),
        0xa0 => Some(Instr::f64_add),
        0xa1 => Some(Instr::f64_sub),
        0xa2 => Some(Instr::f64_mul),
        0xa3 => Some(Instr::f64_div),
        0xa4 => Some(Instr::f64_min),
        0xa5 => Some(Instr::f64_max),
        0xa6 => Some(Instr::f64_copysign),
        0xa7 => Some(Instr::i32_wrap_i64),
        0xa8 => Some(Instr::i32_trunc_f32_s),
        0xa9 => Some(Instr::i32_trunc_f32_u),
        0xaa => Some(Instr::i32_trunc_f64_s),
        0xab => Some(Instr::i32_trunc_f64_u),
        0xac => Some(Instr::i64_extend_i32_s),
        0xad => Some(Instr::i64_extend_i32_u),
        0xae => Some(Instr::i64_trunc_f32_s),
        0xaf => Some(Instr::i64_trunc_f32_u),
        0xb0 => Some(Instr::i64_trunc_f64_s),
        0xb1 => Some(Instr::i64_trunc_f64_u),
        0xb2 => Some(Instr::f32_convert_i32_s),
        0xb3 => Some(Instr::f32_convert_i32_u),
        0xb4 => Some(Instr::f32_convert_i64_s),
        0xb5 => Some(Instr::f32_convert_i64_u),
        0xb6 => Some(Instr::f32_demote_f64),
        0xb7 => Some(Instr::f64_convert_i32_s),
        0xb8 => Some(Instr::f64_convert_i32_u),
        0xb9 => Some(Instr::f64_convert_i64_s),
        0xba => Some(Instr::f64_convert_i64_u),
        0xbb => Some(Instr::f64_promote_f32),
        0xbc => Some(Instr::i32_reinterpret_f32),
        0xbd => Some(Instr::i64_reinterpret_f64),
        0xbe => Some(Instr::f32_reinterpret_i32),
        0xbf => Some(Instr::f64_reinterpret_i64),
        0xc0 => Some(Instr::i32_extend8_s),
        0xc1 => Some(Instr::i32_extend16_s),
        0xc2 => Some(Instr::i64_extend8_s),
        0xc3 => Some(Instr::i64_extend16_s),
        0xc4 => Some(Instr::i64_extend32_s),
        _ => None,
    }
}

/// The instruction with the one index `x` that the opcode `op` stands for.
pub fn decode_index(op: u8, x: u32) -> (r: Option<Instr>)
    ensures
        r == index_instr(op, x),
{
    match op {
        0x0c => Some(Instr::br(x)),
        0x0d => Some(Instr::br_if(x)),
        0x20 => Some(Instr::local_get(x)),
        0x21 => Some(Instr::local_set(x)),
        0x22 => Some(Instr::local_tee(x)),
        0x23 => Some(Instr::global_get(x)),
        0x24 => Some(Instr::global_set(x)),
        0x25 => Some(Instr::table_get(x)),
        0x26 => Some(Instr::table_set(x)),
        _ => None,
    }
}

/// The load or store with the immediates `a` and `b` that the opcode `op`
/// stands for.
pub fn decode_memory_instr(op: u8, a: Value<u32>, b: u32) -> (r: Option<Instr>)
    ensures
        r == memory_instr(op, a, b),
{
    match op {
        0x28 => Some(Instr::i32_load(a, b)),
        0x29 => Some(Instr::i64_load(a, b)),
        0x2a => Some(Instr::f32_load(a, b)),
        0x2b => Some(Instr::f64_load(a, b)),
        0x2c => Some(Instr::i32_load8_s(a, b)),
        0x2d => Some(Instr::i32_load8_u(a, b)),
        0x2e => Some(Instr::i32_load16_s(a, b)),
        0x2f => Some(Instr::i32_load16_u(a, b)),
        0x30 => Some(Instr::i64_load8_s(a, b)),
        0x31 => Some(Instr::i64_load8_u(a, b)),
        0x32 => Some(Instr::i64_load16_s(a, b)),
        0x33 => Some(Instr::i64_load16_u(a, b)),
        0x34 => Some(Instr::i64_load32_s(a, b)),
        0x35 => Some(Instr::i64_load32_u(a, b)),
        0x36 => Some(Instr::i32_store(a, b)),
        0x37 => Some(Instr::i64_store(a, b)),
        0x38 => Some(Instr::f32_store(a, b)),
        0x39 => Some(Instr::f64_store(a, b)),
        0x3a => Some(Instr::i32_store8(a, b)),
        0x3b => Some(Instr::i32_store16(a, b)),
        0x3c => Some(Instr::i64_store8(a, b)),
        0x3d => Some(Instr::i64_store16(a, b)),
        0x3e => Some(Instr::i64_store32(a, b)),
        _ => None,
    }
}

/// Whether `op` is the byte of an instruction with one index.
pub fn is_index_op(op: u8) -> (r: bool)
    ensures
        r == (index_instr(op, 0) is Some),
        forall|x: u32| (#[trigger] index_instr(op, x)) is Some == r,
{
    op == 0x0c || op == 0x0d || (0x20 <= op && op <= 0x26)
}

/// Whether `op` is the byte of a load or a store.
pub fn is_memory_op(op: u8) -> (r: bool)
    ensures
        forall|a: Value<u32>, b: u32| (#[trigger] memory_instr(op, a, b)) is Some == r,
{
    0x28 <= op && op <= 0x3e
}

/// The first byte of the encoding of `i`, which for all but `memory.copy` and
/// `memory.fill` is the whole opcode. `None` for an instruction that has no
/// encoding here.
pub open spec fn opcode(i: Instr) -> Option<u8> {
    match i {
        Instr::unreachable => Some(0x00),
        Instr::nop => Some(0x01),
        Instr::call(..) => Some(0x10),
        Instr::call_indirect(..) => Some(0x11),
        Instr::drop => Some(0x1a),
        Instr::select => Some(0x1b),
        Instr::local_get(..) => Some(0x20),
        Instr::local_set(..) => Some(0x21),
        Instr::local_tee(..) => Some(0x22),
        Instr::global_get(..) => Some(0x23),
        Instr::global_set(..) => Some(0x24),
        Instr::table_get(..) => Some(0x25),
        Instr::table_set(..) => Some(0x26),
        Instr::i32_load(..) => Some(0x28),
        Instr::i64_load(..) => Some(0x29),
        Instr::f32_load(..) => Some(0x2a),
        Instr::f64_load(..) => Some(0x2b),
        Instr::i32_load8_s(..) => Some(0x2c),
        Instr::i32_load8_u(..) => Some(0x2d),
        Instr::i32_load16_s(..) => Some(0x2e),
        Instr::i32_load16_u(..) => Some(0x2f),
        Instr::i64_load8_s(..) => Some(0x30),
        Instr::i64_load8_u(..) => Some(0x31),
        Instr::i64_load16_s(..) => Some(0x32),
        Instr::i64_load16_u(..) => Some(0x33),
        Instr::i64_load32_s(..) => Some(0x34),
        Instr::i64_load32_u(..) => Some(0x35),
        Instr::i32_store(..) => Some(0x36),
        Instr::i64_store(..) => Some(0x37),
        Instr::f32_store(..) => Some(0x38),
        Instr::f64_store(..) => Some(0x39),
        Instr::i32_store8(..) => Some(0x3a),
        Instr::i32_store16(..) => Some(0x3b),
        Instr::i64_store8(..) => Some(0x3c),
        Instr::i64_store16(..) => Some(0x3d),
        Instr::i64_store32(..) => Some(0x3e),
        Instr::memory_size(..) => Some(0x3f),
        Instr::memory_grow(..) => Some(0x40),
        Instr::memory_copy(..) => Some(0xfc),
        Instr::memory_fill(..) => Some(0xfc),
        Instr::br(..) => Some(0x0c),
        Instr::br_if(..) => Some(0x0d),
        Instr::br_table(..) => Some(0x0e),
        Instr::else_end => Some(0x05),
        Instr::end => Some(0x0b),
        Instr::Return => Some(0x0f),
        Instr::Block(..) => Some(0x02),
        Instr::Loop(..) => Some(0x03),
        Instr::If(..) => Some(0x04),
        Instr::i32_const(..) => Some(0x41),
        Instr::i64_const(..) => Some(0x42),
        Instr::f32_const(..) => Some(0x43),
        Instr::f64_const(..) => Some(0x44),
        Instr::i32_eqz => Some(0x45),
        Instr::i32_eq => Some(0x46),
        Instr::i32_ne => Some(0x47),
        Instr::i32_lt_s => Some(0x48),
        Instr::i32_lt_u => Some(0x49),
        Instr::i32_gt_s => Some(0x4a),
        Instr::i32_gt_u => Some(0x4b),
        Instr::i32_le_s => Some(0x4c),
        Instr::i32_le_u => Some(0x4d),
        Instr::i32_ge_s => Some(0x4e),
        Instr::i32_ge_u => Some(0x4f),
        Instr::i64_eqz => Some(0x50),
        Instr::i64_eq => Some(0x51),
        Instr::i64_ne => Some(0x52),
        Instr::i64_lt_s => Some(0x53),
        Instr::i64_lt_u => Some(0x54),
        Instr::i64_gt_s => Some(0x55),
        Instr::i64_gt_u => Some(0x56),
        Instr::i64_le_s => Some(0x57),
        Instr::i64_le_u => Some(0x58),
        Instr::i64_ge_s => Some(0x59),
        Instr::i64_ge_u => Some(0x5a),
        Instr::f32_eq => Some(0x5b),
        Instr::f32_ne => Some(0x5c),
        Instr::f32_lt => Some(0x5d),
        Instr::f32_gt => Some(0x5e),
        Instr::f32_le => Some(0x5f),
        Instr::f32_ge => Some(0x60),
        Instr::f64_eq => Some(0x61),
        Instr::f64_ne => Some(0x62),
        Instr::f64_lt => Some(0x63),
        Instr::f64_gt => Some(0x64),
        Instr::f64_le => Some(0x65),
        Instr::f64_ge => Some(0x66),
        Instr::i32_clz => Some(0x67),
        Instr::i32_ctz => Some(0x68),
        Instr::i32_popcnt => Some(0x69),
        Instr::i32_add => Some(0x6a),
        Instr::i32_sub => Some(0x6b),
        Instr::i32_mul => Some(0x6c),
        Instr::i32_div_s => Some(0x6d),
        Instr::i32_div_u => Some(0x6e),
        Instr::i32_rem_s => Some(0x6f),
        Instr::i32_rem_u => Some(0x70),
        Instr::i32_and => Some(0x71),
        Instr::i32_or => Some(0x72),
        Instr::i32_xor => Some(0x73),
        Instr::i32_shl => Some(0x74),
        Instr::i32_shr_s => Some(0x75),
        Instr::i32_shr_u => Some(0x76),
        Instr::i32_rotl => Some(0x77),
        Instr::i32_rotr => Some(0x78),
        Instr::i64_clz => Some(0x79),
        Instr::i64_ctz => Some(0x7a),
        Instr::i64_popcnt => Some(0x7b),
        Instr::i64_add => Some(0x7c),
        Instr::i64_sub => Some(0x7d),
        Instr::i64_mul => Some(0x7e),
        Instr::i64_div_s => Some(0x7f),
        Instr::i64_div_u => Some(0x80),
        Instr::i64_rem_s => Some(0x81),
        Instr::i64_rem_u => Some(0x82),
        Instr::i64_and => Some(0x83),
        Instr::i64_or => Some(0x84),
        Instr::i64_xor => Some(0x85),
        Instr::i64_shl => Some(0x86),
        Instr::i64_shr_s => Some(0x87),
        Instr::i64_shr_u => Some(0x88),
        Instr::i64_rotl => Some(0x89),
        Instr::i64_rotr => Some(0x8a),
        Instr::f32_abs => Some(0x8b),
        Instr::f32_neg => Some(0x8c),
        Instr::f32_ceil => Some(0x8d),
        Instr::f32_floor => Some(0x8e),
        Instr::f32_trunc => Some(0x8f),
        Instr::f32_nearest => Some(0x90),
        Instr::f32_sqrt => Some(0x91),
        Instr::f32_add => Some(0x92),
        Instr::f32_sub => Some(0x93),
        Instr::f32_mul => Some(0x94),
        Instr::f32_div => Some(0x95),
        Instr::f32_min => Some(0x96),
        Instr::f32_max => Some(0x97),
        Instr::f32_copysign => Some(0x98),
        Instr::f64_abs => Some(0x99),
        Instr::f64_neg => Some(0x9a),
        Instr::f64_ceil => Some(0x9b),
        Instr::f64_floor => Some(0x9c),
        Instr::f64_trunc => Some(0x9d),
        Instr::f64_nearest => Some(0x9e),
        Instr::f64_sqrt => Some(0x9f),
        Instr::f64_add => Some(0xa0),
        Instr::f64_sub => Some(0xa1),
        Instr::f64_mul => Some(0xa2),
        Instr::f64_div => Some(0xa3),
        Instr::f64_min => Some(0xa4),
        Instr::f64_max => Some(0xa5),
        Instr::f64_copysign => Some(0xa6),
        Instr::i32_wrap_i64 => Some(0xa7),
        Instr::i32_trunc_f32_s => Some(0xa8),
        Instr::i32_trunc_f32_u => Some(0xa9),
        Instr::i32_trunc_f64_s => Some(0xaa),
        Instr::i32_trunc_f64_u => Some(0xab),
        Instr::i32_trunc_sat_f32_s => None,
        Instr::i32_trunc_sat_f32_u => None,
        Instr::i32_trunc_sat_f64_s => None,
        Instr::i32_trunc_sat_f64_u => None,
        Instr::i64_extend_i32_s => Some(0xac),
        Instr::i64_extend_i32_u => Some(0xad),
        Instr::i64_trunc_f32_s => Some(0xae),
        Instr::i64_trunc_f32_u => Some(0xaf),
        Instr::i64_trunc_f64_s => Some(0xb0),
        Instr::i64_trunc_f64_u => Some(0xb1),
        Instr::i64_trunc_sat_f32_s => None,
        Instr::i64_trunc_sat_f32_u => None,
        Instr::i64_trunc_sat_f64_s => None,
        Instr::i64_trunc_sat_f64_u => None,
        Instr::f32_convert_i32_s => Some(0xb2),
        Instr::f32_convert_i32_u => Some(0xb3),
        Instr::f32_convert_i64_s => Some(0xb4),
        Instr::f32_convert_i64_u => Some(0xb5),
        Instr::f32_demote_f64 => Some(0xb6),
        Instr::f64_convert_i32_s => Some(0xb7),
        Instr::f64_convert_i32_u => Some(0xb8),
        Instr::f64_convert_i64_s => Some(0xb9),
        Instr::f64_convert_i64_u => Some(0xba),
        Instr::f64_promote_f32 => Some(0xbb),
        Instr::i32_reinterpret_f32 => Some(0xbc),
        Instr::i64_reinterpret_f64 => Some(0xbd),
        Instr::f32_reinterpret_i32 => Some(0xbe),
        Instr::f64_reinterpret_i64 => Some(0xbf),
        Instr::i32_extend8_s => Some(0xc0),
        Instr::i32_extend16_s => Some(0xc1),
        Instr::i64_extend8_s => Some(0xc2),
        Instr::i64_extend16_s => Some(0xc3),
        Instr::i64_extend32_s => Some(0xc4),
    }
}

/// The opcode of `i`, where it has one.
pub fn opcode_of(i: &Instr) -> (r: Option<u8>)
    ensures
        r == opcode(*i),
{
    match i {
        Instr::unreachable => Some(0x00),
        Instr::nop => Some(0x01),
        Instr::call(..) => Some(0x10),
        Instr::call_indirect(..) => Some(0x11),
        Instr::drop => Some(0x1a),
        Instr::select => Some(0x1b),
        Instr::local_get(..) => Some(0x20),
        Instr::local_set(..) => Some(0x21),
        Instr::local_tee(..) => Some(0x22),
        Instr::global_get(..) => Some(0x23),
        Instr::global_set(..) => Some(0x24),
        Instr::table_get(..) => Some(0x25),
        Instr::table_set(..) => Some(0x26),
        Instr::i32_load(..) => Some(0x28),
        Instr::i64_load(..) => Some(0x29),
        Instr::f32_load(..) => Some(0x2a),
        Instr::f64_load(..) => Some(0x2b),
        Instr::i32_load8_s(..) => Some(0x2c),
        Instr::i32_load8_u(..) => Some(0x2d),
        Instr::i32_load16_s(..) => Some(0x2e),
        Instr::i32_load16_u(..) => Some(0x2f),
        Instr::i64_load8_s(..) => Some(0x30),
        Instr::i64_load8_u(..) => Some(0x31),
        Instr::i64_load16_s(..) => Some(0x32),
        Instr::i64_load16_u(..) => Some(0x33),
        Instr::i64_load32_s(..) => Some(0x34),
        Instr::i64_load32_u(..) => Some(0x35),
        Instr::i32_store(..) => Some(0x36),
        Instr::i64_store(..) => Some(0x37),
        Instr::f32_store(..) => Some(0x38),
        Instr::f64_store(..) => Some(0x39),
        Instr::i32_store8(..) => Some(0x3a),
        Instr::i32_store16(..) => Some(0x3b),
        Instr::i64_store8(..) => Some(0x3c),
        Instr::i64_store16(..) => Some(0x3d),
        Instr::i64_store32(..) => Some(0x3e),
        Instr::memory_size(..) => Some(0x3f),
        Instr::memory_grow(..) => Some(0x40),
        Instr::memory_copy(..) => Some(0xfc),
        Instr::memory_fill(..) => Some(0xfc),
        Instr::br(..) => Some(0x0c),
        Instr::br_if(..) => Some(0x0d),
        Instr::br_table(..) => Some(0x0e),
        Instr::else_end => Some(0x05),
        Instr::end => Some(0x0b),
        Instr::Return => Some(0x0f),
        Instr::Block(..) => Some(0x02),
        Instr::Loop(..) => Some(0x03),
        Instr::If(..) => Some(0x04),
        Instr::i32_const(..) => Some(0x41),
        Instr::i64_const(..) => Some(0x42),
        Instr::f32_const(..) => Some(0x43),
        Instr::f64_const(..) => Some(0x44),
        Instr::i32_eqz => Some(0x45),
        Instr::i32_eq => Some(0x46),
        Instr::i32_ne => Some(0x47),
        Instr::i32_lt_s => Some(0x48),
        Instr::i32_lt_u => Some(0x49),
        Instr::i32_gt_s => Some(0x4a),
        Instr::i32_gt_u => Some(0x4b),
        Instr::i32_le_s => Some(0x4c),
        Instr::i32_le_u => Some(0x4d),
        Instr::i32_ge_s => Some(0x4e),
        Instr::i32_ge_u => Some(0x4f),
        Instr::i64_eqz => Some(0x50),
        Instr::i64_eq => Some(0x51),
        Instr::i64_ne => Some(0x52),
        Instr::i64_lt_s => Some(0x53),
        Instr::i64_lt_u => Some(0x54),
        Instr::i64_gt_s => Some(0x55),
        Instr::i64_gt_u => Some(0x56),
        Instr::i64_le_s => Some(0x57),
        Instr::i64_le_u => Some(0x58),
        Instr::i64_ge_s => Some(0x59),
        Instr::i64_ge_u => Some(0x5a),
        Instr::f32_eq => Some(0x5b),
        Instr::f32_ne => Some(0x5c),
        Instr::f32_lt => Some(0x5d),
        Instr::f32_gt => Some(0x5e),
        Instr::f32_le => Some(0x5f),
        Instr::f32_ge => Some(0x60),
        Instr::f64_eq => Some(0x61),
        Instr::f64_ne => Some(0x62),
        Instr::f64_lt => Some(0x63),
        Instr::f64_gt => Some(0x64),
        Instr::f64_le => Some(0x65),
        Instr::f64_ge => Some(0x66),
        Instr::i32_clz => Some(0x67),
        Instr::i32_ctz => Some(0x68),
        Instr::i32_popcnt => Some(0x69),
        Instr::i32_add => Some(0x6a),
        Instr::i32_sub => Some(0x6b),
        Instr::i32_mul => Some(0x6c),
        Instr::i32_div_s => Some(0x6d),
        Instr::i32_div_u => Some(0x6e),
        Instr::i32_rem_s => Some(0x6f),
        Instr::i32_rem_u => Some(0x70),
        Instr::i32_and => Some(0x71),
        Instr::i32_or => Some(0x72),
        Instr::i32_xor => Some(0x73),
        Instr::i32_shl => Some(0x74),
        Instr::i32_shr_s => Some(0x75),
        Instr::i32_shr_u => Some(0x76),
        Instr::i32_rotl => Some(0x77),
        Instr::i32_rotr => Some(0x78),
        Instr::i64_clz => Some(0x79),
        Instr::i64_ctz => Some(0x7a),
        Instr::i64_popcnt => Some(0x7b),
        Instr::i64_add => Some(0x7c),
        Instr::i64_sub => Some(0x7d),
        Instr::i64_mul => Some(0x7e),
        Instr::i64_div_s => Some(0x7f),
        Instr::i64_div_u => Some(0x80),
        Instr::i64_rem_s => Some(0x81),
        Instr::i64_rem_u => Some(0x82),
        Instr::i64_and => Some(0x83),
        Instr::i64_or => Some(0x84),
        Instr::i64_xor => Some(0x85),
        Instr::i64_shl => Some(0x86),
        Instr::i64_shr_s => Some(0x87),
        Instr::i64_shr_u => Some(0x88),
        Instr::i64_rotl => Some(0x89),
        Instr::i64_rotr => Some(0x8a),
        Instr::f32_abs => Some(0x8b),
        Instr::f32_neg => Some(0x8c),
        Instr::f32_ceil => Some(0x8d),
        Instr::f32_floor => Some(0x8e),
        Instr::f32_trunc => Some(0x8f),
        Instr::f32_nearest => Some(0x90),
        Instr::f32_sqrt => Some(0x91),
        Instr::f32_add => Some(0x92),
        Instr::f32_sub => Some(0x93),
        Instr::f32_mul => Some(0x94),
        Instr::f32_div => Some(0x95),
        Instr::f32_min => Some(0x96),
        Instr::f32_max => Some(0x97),
        Instr::f32_copysign => Some(0x98),
        Instr::f64_abs => Some(0x99),
        Instr::f64_neg => Some(0x9a),
        Instr::f64_ceil => Some(0x9b),
        Instr::f64_floor => Some(0x9c),
        Instr::f64_trunc => Some(0x9d),
        Instr::f64_nearest => Some(0x9e),
        Instr::f64_sqrt => Some(0x9f),
        Instr::f64_add => Some(0xa0),
        Instr::f64_sub => Some(0xa1),
        Instr::f64_mul => Some(0xa2),
        Instr::f64_div => Some(0xa3),
        Instr::f64_min => Some(0xa4),
        Instr::f64_max => Some(0xa5),
        Instr::f64_copysign => Some(0xa6),
        Instr::i32_wrap_i64 => Some(0xa7),
        Instr::i32_trunc_f32_s => Some(0xa8),
        Instr::i32_trunc_f32_u => Some(0xa9),
        Instr::i32_trunc_f64_s => Some(0xaa),
        Instr::i32_trunc_f64_u => Some(0xab),
        Instr::i32_trunc_sat_f32_s => None,
        Instr::i32_trunc_sat_f32_u => None,
        Instr::i32_trunc_sat_f64_s => None,
        Instr::i32_trunc_sat_f64_u => None,
        Instr::i64_extend_i32_s => Some(0xac),
        Instr::i64_extend_i32_u => Some(0xad),
        Instr::i64_trunc_f32_s => Some(0xae),
        Instr::i64_trunc_f32_u => Some(0xaf),
        Instr::i64_trunc_f64_s => Some(0xb0),
        Instr::i64_trunc_f64_u => Some(0xb1),
        Instr::i64_trunc_sat_f32_s => None,
        Instr::i64_trunc_sat_f32_u => None,
        Instr::i64_trunc_sat_f64_s => None,
        Instr::i64_trunc_sat_f64_u => None,
        Instr::f32_convert_i32_s => Some(0xb2),
        Instr::f32_convert_i32_u => Some(0xb3),
        Instr::f32_convert_i64_s => Some(0xb4),
        Instr::f32_convert_i64_u => Some(0xb5),
        Instr::f32_demote_f64 => Some(0xb6),
        Instr::f64_convert_i32_s => Some(0xb7),
        Instr::f64_convert_i32_u => Some(0xb8),
        Instr::f64_convert_i64_s => Some(0xb9),
        Instr::f64_convert_i64_u => Some(0xba),
        Instr::f64_promote_f32 => Some(0xbb),
        Instr::i32_reinterpret_f32 => Some(0xbc),
        Instr::i64_reinterpret_f64 => Some(0xbd),
        Instr::f32_reinterpret_i32 => Some(0xbe),
        Instr::f64_reinterpret_i64 => Some(0xbf),
        Instr::i32_extend8_s => Some(0xc0),
        Instr::i32_extend16_s => Some(0xc1),
        Instr::i64_extend8_s => Some(0xc2),
        Instr::i64_extend16_s => Some(0xc3),
        Instr::i64_extend32_s => Some(0xc4),
    }
}

} // verus!
