//! Decoding what was encoded: the proof that the decoder reads back what the
//! encoder writes, part by part.

use crate::ast::{
    BlockType, Code, CodeLocal, CodeV, CustomSectionV, DataSegment, DataSegmentMode, DataSegmentV,
    DebugNamesV, Element, ElementV, Export, ExportDescr, ExportV, Global, GlobalType, GlobalV,
    Import, ImportType, ImportV, Instr, InstrV, Limits, Memory, ModuleV, SectionKind, SectionV,
    Table, Type, TypeV, Value, ValueType,
};
use crate::coredump_encoder::{
    encode_core_stack, encode_frame, encode_frames, encode_process_info, encode_string,
};
use crate::coredump_types::{StackFrame, StackFrameV};
use crate::index::{func_import_types, global_import_count, last_of_kind, lemma_last_of_kind};
use crate::opcodes::{index_instr, memory_instr, opcode, plain_instr};
use crate::parser::{
    Decode, decode_module, magic, parse_blocktype, parse_byte_vec, parse_bytes, parse_custom,
    parse_debug_names, parse_expr, parse_global_type, parse_import_type, parse_instr, parse_instrs,
    parse_items, parse_leaf, parse_leb128, parse_leb128_signed, parse_limits, parse_memory,
    parse_name, parse_name_pairs, parse_name_subsections, parse_namemap, parse_section,
    parse_section_content, parse_sections, parse_stack_frame, parse_table, parse_u8, parse_valtype,
    parse_vec, structured, version,
};
use crate::printer::{
    Encode, all_encodable, encode_blocktype, encode_byte_vec, encode_custom, encode_data,
    encode_debug_names, encode_export_descr, encode_expr, encode_global_type, encode_import_type,
    encode_instr, encode_items, encode_limits, encode_memory, encode_module, encode_name,
    encode_name_pairs, encode_namemap, encode_nodes, encode_pairs_from, encode_reftype,
    encode_section, encode_section_content, encode_sections, encode_table, encode_value_type,
    encode_vec, expr_encodable, header, immediates, instr_encodable, leaf_encodable,
    lemma_all_names, lemma_encode_pairs_from, module_encodable, nodes_encodable, present,
    section_encodable, section_id, with_names,
};
use crate::varint::{
    le_bytes, lemma_le_limit, lemma_le_round_trip, lemma_read_signed_bounds,
    lemma_read_signed_leb128, lemma_read_unsigned_bounds, lemma_read_unsigned_leb128,
    lemma_signed_leb128_len, lemma_unsigned_leb128_len, signed_leb128, unsigned_leb128,
};
use vstd::prelude::*;

verus! {

/// Whether `bytes` stand in `s` from `pos` on, and end no later than `end`.
pub open spec fn stands(s: Seq<u8>, pos: int, end: int, bytes: Seq<u8>) -> bool {
    &&& 0 <= pos
    &&& pos + bytes.len() <= end <= s.len()
    &&& s.subrange(pos, pos + bytes.len()) == bytes
}

/// Where two byte strings stand one after the other, each stands in its
/// place.
pub proof fn lemma_stands_split(s: Seq<u8>, pos: int, end: int, a: Seq<u8>, b: Seq<u8>)
    requires
        stands(s, pos, end, a + b),
    ensures
        stands(s, pos, end, a),
        stands(s, pos + a.len(), end, b),
{
    let whole = s.subrange(pos, pos + (a + b).len());
    assert(s.subrange(pos, pos + a.len()) =~= whole.subrange(0, a.len() as int));
    assert(whole.subrange(0, a.len() as int) =~= a);
    assert(s.subrange(pos + a.len(), pos + a.len() + b.len()) =~= whole.subrange(
        a.len() as int,
        (a + b).len() as int,
    ));
    assert(whole.subrange(a.len() as int, (a + b).len() as int) =~= b);
}

/// A byte that stands in `s` is read there.
pub proof fn lemma_u8(s: Seq<u8>, pos: int, end: int, b: u8)
    requires
        stands(s, pos, end, seq![b]),
    ensures
        parse_u8(s, pos, end) == Some((b, pos + 1)),
{
    assert(s[pos] == s.subrange(pos, pos + 1)[0]);
}

/// A number below 2^32 whose encoding stands in `s` is read there.
pub proof fn lemma_leb128(s: Seq<u8>, pos: int, end: int, n: nat)
    requires
        n < 0x1_0000_0000,
        stands(s, pos, end, unsigned_leb128(n)),
    ensures
        parse_leb128(s, pos, end) == Some((n as u32, pos + unsigned_leb128(n).len())),
        unsigned_leb128(n).len() >= 1,
{
    lemma_read_unsigned_bounds(s, pos, end, 0);
    lemma_read_unsigned_leb128(s, pos, end, n, 0);
    lemma_unsigned_leb128_len(n);
}

/// A 64-bit number whose signed encoding stands in `s` is read there.
pub proof fn lemma_leb128_signed(s: Seq<u8>, pos: int, end: int, v: i64)
    requires
        stands(s, pos, end, signed_leb128(v as int)),
    ensures
        parse_leb128_signed(s, pos, end) == Some((v, pos + signed_leb128(v as int).len())),
        signed_leb128(v as int).len() >= 1,
{
    lemma_read_signed_bounds(s, pos, end, 0);
    lemma_read_signed_leb128(s, pos, end, v as int, 0);
    lemma_signed_leb128_len(v as int);
}

/// Bytes that stand in `s` are read there.
pub proof fn lemma_bytes(s: Seq<u8>, pos: int, end: int, bytes: Seq<u8>)
    requires
        stands(s, pos, end, bytes),
    ensures
        parse_bytes(s, pos, end, bytes.len() as int) == Some((bytes, pos + bytes.len())),
{
}

/// A name whose encoding stands in `s` is read there.
pub proof fn lemma_name(s: Seq<u8>, pos: int, end: int, name: Seq<char>)
    requires
        stands(s, pos, end, encode_name(name)),
        encode_name(name).len() < 0x1_0000_0000,
    ensures
        parse_name(s, pos, end) == Some((name, pos + encode_name(name).len())),
        encode_name(name).len() >= 1,
{
    let bytes = vstd::utf8::encode_utf8(name);
    let len = unsigned_leb128(bytes.len());
    lemma_stands_split(s, pos, end, len, bytes);
    lemma_leb128(s, pos, end, bytes.len());
    lemma_bytes(s, pos + len.len(), end, bytes);
    vstd::utf8::encode_utf8_valid_utf8(name);
    vstd::utf8::encode_utf8_decode_utf8(name);
}

/// A byte vector whose encoding stands in `s` is read there.
pub proof fn lemma_byte_vec(s: Seq<u8>, pos: int, end: int, bytes: Seq<u8>)
    requires
        stands(s, pos, end, encode_byte_vec(bytes)),
        encode_byte_vec(bytes).len() < 0x1_0000_0000,
    ensures
        parse_byte_vec(s, pos, end) == Some((bytes, pos + encode_byte_vec(bytes).len())),
        encode_byte_vec(bytes).len() >= 1,
{
    let len = unsigned_leb128(bytes.len());
    lemma_stands_split(s, pos, end, len, bytes);
    lemma_leb128(s, pos, end, bytes.len());
    lemma_bytes(s, pos + len.len(), end, bytes);
}

/// A part of a module whose encoding the decoder reads back.
pub trait Roundtrip: Decode + Encode {
    /// What must hold of a part for its encoding to be read back as a part
    /// with the same encoding.
    spec fn canonical(v: Self::V) -> bool;

    /// Whether two parts are the same but for the places where they were
    /// read and the sizes that they were read with.
    spec fn alike(a: Self::V, b: Self::V) -> bool;

    /// Where the encoding of `v` stands in `s`, the part that is read there
    /// ends where the encoding ends, is the same as `v` but for places and
    /// sizes, and has the same encoding.
    proof fn lemma_roundtrip(v: Self::V, s: Seq<u8>, pos: int, end: int)
        requires
            Self::canonical(v),
            Self::encodable(v),
            stands(s, pos, end, Self::encoding(v)),
            Self::encoding(v).len() < 0x1_0000_0000,
        ensures
            Self::encoding(v).len() >= 1,
            Self::parse(s, pos, end) matches Some((w, next)) && next == pos + Self::encoding(
                v,
            ).len() && Self::encodable(w) && Self::alike(w, v) && Self::encoding(w)
                == Self::encoding(v),
    ;

    /// What is read has an encoding, which is read back.
    proof fn lemma_parsed(s: Seq<u8>, pos: int, end: int)
        ensures
            Self::parse(s, pos, end) matches Some((w, _)) ==> Self::encodable(w) && Self::canonical(
                w,
            ),
    ;
}

/// The items that are read have encodings, which are read back.
pub proof fn lemma_parsed_items<T: Roundtrip>(s: Seq<u8>, pos: int, end: int, n: nat)
    ensures
        parse_items::<T>(s, pos, end, n) matches Some((ws, _)) ==> all_encodable::<T>(ws)
            && all_canonical::<T>(ws),
    decreases n,
{
    if n > 0 {
        T::lemma_parsed(s, pos, end);
        match T::parse(s, pos, end) {
            Some((x, p)) => {
                lemma_parsed_items::<T>(s, p, end, (n - 1) as nat);
                match parse_items::<T>(s, p, end, (n - 1) as nat) {
                    Some((xs, q)) => {
                        assert forall|k: int| 0 <= k < (seq![x] + xs).len() implies T::encodable(
                            #[trigger] (seq![x] + xs)[k],
                        ) && T::canonical((seq![x] + xs)[k]) by {
                            if k > 0 {
                                assert((seq![x] + xs)[k] == xs[k - 1]);
                            }
                        }
                    },
                    None => {},
                }
            },
            None => {},
        }
    }
}

/// The items of a vector that is read have encodings, which are read back.
pub proof fn lemma_parsed_vec<T: Roundtrip>(s: Seq<u8>, pos: int, end: int)
    ensures
        parse_vec::<T>(s, pos, end) matches Some((ws, _)) ==> all_encodable::<T>(ws)
            && all_canonical::<T>(ws),
{
    match parse_leb128(s, pos, end) {
        Some((n, p)) => lemma_parsed_items::<T>(s, p, end, n as nat),
        None => {},
    }
}

/// Whether each of `items` is canonical.
pub open spec fn all_canonical<T: Roundtrip>(items: Seq<T::V>) -> bool {
    forall|k: int| 0 <= k < items.len() ==> T::canonical(#[trigger] items[k])
}

/// Whether `ws` and `items` are the same, one for one, but for places and
/// sizes.
pub open spec fn all_alike<T: Roundtrip>(ws: Seq<T::V>, items: Seq<T::V>) -> bool {
    ws.len() == items.len() && forall|k: int|
        0 <= k < ws.len() ==> T::alike(#[trigger] ws[k], items[k])
}

/// The encoding of items is the encoding of the first, then that of the
/// others.
pub proof fn lemma_encode_items_front<T: Encode>(x: T::V, xs: Seq<T::V>)
    ensures
        encode_items::<T>(seq![x] + xs) == T::encoding(x) + encode_items::<T>(xs),
    decreases xs.len(),
{
    let all = seq![x] + xs;
    if xs.len() == 0 {
        assert(all.drop_last() =~= Seq::<T::V>::empty());
        assert(all.last() == x);
        assert(encode_items::<T>(Seq::<T::V>::empty()) =~= Seq::<u8>::empty());
        assert(encode_items::<T>(xs) =~= Seq::<u8>::empty());
        assert(encode_items::<T>(all) =~= T::encoding(x));
        assert(T::encoding(x) + encode_items::<T>(xs) =~= T::encoding(x));
    } else {
        lemma_encode_items_front::<T>(x, xs.drop_last());
        assert(all.drop_last() =~= seq![x] + xs.drop_last());
        assert(all.last() == xs.last());
        assert(encode_items::<T>(all) =~= T::encoding(x) + encode_items::<T>(xs));
    }
}

/// Items whose encodings stand in `s` one after the other are read there,
/// as items with the same encodings.
pub proof fn lemma_items<T: Roundtrip>(items: Seq<T::V>, s: Seq<u8>, pos: int, end: int)
    requires
        all_canonical::<T>(items),
        all_encodable::<T>(items),
        stands(s, pos, end, encode_items::<T>(items)),
        encode_items::<T>(items).len() < 0x1_0000_0000,
    ensures
        items.len() <= encode_items::<T>(items).len(),
        parse_items::<T>(s, pos, end, items.len()) matches Some((ws, next)) && next == pos
            + encode_items::<T>(items).len() && ws.len() == items.len() && all_encodable::<T>(ws)
            && all_alike::<T>(ws, items) && encode_items::<T>(ws) == encode_items::<T>(items),
    decreases items.len(),
{
    if items.len() > 0 {
        let x = items[0];
        let xs = items.subrange(1, items.len() as int);
        assert(items =~= seq![x] + xs);
        lemma_encode_items_front::<T>(x, xs);
        lemma_stands_split(s, pos, end, T::encoding(x), encode_items::<T>(xs));
        T::lemma_roundtrip(x, s, pos, end);
        let (w, p) = T::parse(s, pos, end).unwrap();
        assert forall|k: int| 0 <= k < xs.len() implies T::canonical(#[trigger] xs[k])
            && T::encodable(xs[k]) by {
            assert(xs[k] == items[k + 1]);
        }
        lemma_items::<T>(xs, s, p, end);
        let (ws, q) = parse_items::<T>(s, p, end, xs.len()).unwrap();
        lemma_encode_items_front::<T>(w, ws);
        assert forall|k: int| 0 <= k < (seq![w] + ws).len() implies T::encodable(
            #[trigger] (seq![w] + ws)[k],
        ) && T::alike((seq![w] + ws)[k], items[k]) by {
            if k > 0 {
                assert((seq![w] + ws)[k] == ws[k - 1]);
                assert(xs[k - 1] == items[k]);
            }
        }
    }
}

/// A vector whose encoding stands in `s` is read there, as a vector with
/// the same encoding.
pub proof fn lemma_vec<T: Roundtrip>(items: Seq<T::V>, s: Seq<u8>, pos: int, end: int)
    requires
        all_canonical::<T>(items),
        all_encodable::<T>(items),
        stands(s, pos, end, encode_vec::<T>(items)),
        encode_vec::<T>(items).len() < 0x1_0000_0000,
    ensures
        encode_vec::<T>(items).len() >= 1,
        parse_vec::<T>(s, pos, end) matches Some((ws, next)) && next == pos + encode_vec::<T>(
            items,
        ).len() && all_encodable::<T>(ws) && all_alike::<T>(ws, items) && encode_vec::<T>(ws)
            == encode_vec::<T>(items),
{
    let count = unsigned_leb128(items.len());
    lemma_unsigned_leb128_len(items.len());
    lemma_stands_split(s, pos, end, count, encode_items::<T>(items));
    lemma_items::<T>(items, s, pos + count.len(), end);
    lemma_leb128(s, pos, end, items.len());
}

impl Roundtrip for u32 {
    open spec fn canonical(v: u32) -> bool {
        true
    }

    open spec fn alike(a: u32, b: u32) -> bool {
        a == b
    }

    proof fn lemma_roundtrip(v: u32, s: Seq<u8>, pos: int, end: int) {
        lemma_leb128(s, pos, end, v as nat);
    }

    proof fn lemma_parsed(s: Seq<u8>, pos: int, end: int) {
    }
}

/// A value type whose byte stands in `s` is read there.
pub proof fn lemma_value_type(s: Seq<u8>, pos: int, end: int, t: ValueType)
    requires
        stands(s, pos, end, encode_value_type(t)),
    ensures
        parse_valtype(s, pos, end) == Some((t, pos + 1)),
        encode_value_type(t).len() == 1,
{
    assert(s[pos] == s.subrange(pos, pos + 1)[0]);
}

impl Roundtrip for ValueType {
    open spec fn canonical(v: ValueType) -> bool {
        true
    }

    open spec fn alike(a: ValueType, b: ValueType) -> bool {
        a == b
    }

    proof fn lemma_roundtrip(v: ValueType, s: Seq<u8>, pos: int, end: int) {
        lemma_value_type(s, pos, end, v);
    }

    proof fn lemma_parsed(s: Seq<u8>, pos: int, end: int) {
    }
}

/// Limits whose encoding stands in `s` are read there.
pub proof fn lemma_limits(s: Seq<u8>, pos: int, end: int, min: u32, max: Option<u32>)
    requires
        stands(s, pos, end, encode_limits(min, max)),
    ensures
        parse_limits(s, pos, end) == Some(
            (Limits { min, max }, pos + encode_limits(min, max).len()),
        ),
        encode_limits(min, max).len() >= 1,
{
    match max {
        Some(m) => {
            let a = seq![0x01u8];
            let b = unsigned_leb128(min as nat);
            let c = unsigned_leb128(m as nat);
            lemma_stands_split(s, pos, end, a + b, c);
            lemma_stands_split(s, pos, end, a, b);
            lemma_u8(s, pos, end, 0x01);
            lemma_leb128(s, pos + 1, end, min as nat);
            lemma_leb128(s, pos + 1 + b.len(), end, m as nat);
        },
        None => {
            let a = seq![0x00u8];
            let b = unsigned_leb128(min as nat);
            lemma_stands_split(s, pos, end, a, b);
            lemma_u8(s, pos, end, 0x00);
            lemma_leb128(s, pos + 1, end, min as nat);
        },
    }
}

/// A table whose encoding stands in `s` is read there.
pub proof fn lemma_table(s: Seq<u8>, pos: int, end: int, t: Table)
    requires
        stands(s, pos, end, encode_table(t)),
    ensures
        parse_table(s, pos, end) == Some((t, pos + encode_table(t).len())),
        encode_table(t).len() >= 1,
{
    let a = encode_reftype(t.reftype);
    let b = encode_limits(t.limits.min, t.limits.max);
    lemma_stands_split(s, pos, end, a, b);
    assert(s[pos] == s.subrange(pos, pos + 1)[0]);
    lemma_limits(s, pos + 1, end, t.limits.min, t.limits.max);
}

impl Roundtrip for Table {
    open spec fn canonical(v: Table) -> bool {
        true
    }

    open spec fn alike(a: Table, b: Table) -> bool {
        a == b
    }

    proof fn lemma_roundtrip(v: Table, s: Seq<u8>, pos: int, end: int) {
        lemma_table(s, pos, end, v);
    }

    proof fn lemma_parsed(s: Seq<u8>, pos: int, end: int) {
    }
}

/// A memory whose encoding stands in `s` is read there, with the place of
/// its minimum.
pub proof fn lemma_memory(s: Seq<u8>, pos: int, end: int, m: Memory)
    requires
        stands(s, pos, end, encode_memory(m)),
    ensures
        parse_memory(s, pos, end) matches Some((w, next)) && next == pos + encode_memory(m).len()
            && w.min.value == m.min.value && w.max == m.max,
        encode_memory(m).len() >= 1,
{
    match m.max {
        Some(max) => {
            let a = seq![0x01u8];
            let b = unsigned_leb128(m.min.value as nat);
            let c = unsigned_leb128(max as nat);
            lemma_stands_split(s, pos, end, a + b, c);
            lemma_stands_split(s, pos, end, a, b);
            lemma_u8(s, pos, end, 0x01);
            lemma_leb128(s, pos + 1, end, m.min.value as nat);
            lemma_leb128(s, pos + 1 + b.len(), end, max as nat);
        },
        None => {
            let a = seq![0x00u8];
            let b = unsigned_leb128(m.min.value as nat);
            lemma_stands_split(s, pos, end, a, b);
            lemma_u8(s, pos, end, 0x00);
            lemma_leb128(s, pos + 1, end, m.min.value as nat);
        },
    }
}

impl Roundtrip for Memory {
    open spec fn canonical(v: Memory) -> bool {
        true
    }

    open spec fn alike(a: Memory, b: Memory) -> bool {
        a.min.value == b.min.value && a.max == b.max
    }

    proof fn lemma_roundtrip(v: Memory, s: Seq<u8>, pos: int, end: int) {
        lemma_memory(s, pos, end, v);
    }

    proof fn lemma_parsed(s: Seq<u8>, pos: int, end: int) {
    }
}

/// The type of a global whose encoding stands in `s` is read there.
pub proof fn lemma_global_type(s: Seq<u8>, pos: int, end: int, t: GlobalType)
    requires
        stands(s, pos, end, encode_global_type(t)),
    ensures
        parse_global_type(s, pos, end) == Some((t, pos + 2)),
        encode_global_type(t).len() == 2,
{
    let a = encode_value_type(t.valtype);
    let b = seq![if t.mutable { 0x01u8 } else { 0x00u8 }];
    lemma_stands_split(s, pos, end, a, b);
    lemma_value_type(s, pos, end, t.valtype);
    lemma_u8(s, pos + 1, end, if t.mutable { 0x01u8 } else { 0x00u8 });
}

impl Roundtrip for CodeLocal {
    open spec fn canonical(v: CodeLocal) -> bool {
        true
    }

    open spec fn alike(a: CodeLocal, b: CodeLocal) -> bool {
        a == b
    }

    proof fn lemma_roundtrip(v: CodeLocal, s: Seq<u8>, pos: int, end: int) {
        let a = unsigned_leb128(v.count as nat);
        let b = encode_value_type(v.value_type);
        lemma_stands_split(s, pos, end, a, b);
        lemma_leb128(s, pos, end, v.count as nat);
        lemma_value_type(s, pos + a.len(), end, v.value_type);
    }

    proof fn lemma_parsed(s: Seq<u8>, pos: int, end: int) {
    }
}

/// Every value type is canonical and has an encoding.
pub proof fn lemma_value_types(v: Seq<ValueType>)
    ensures
        all_canonical::<ValueType>(v),
        all_encodable::<ValueType>(v),
{
}

/// Value types that are the same one for one are the same.
pub proof fn lemma_same_value_types(ws: Seq<ValueType>, v: Seq<ValueType>)
    requires
        all_alike::<ValueType>(ws, v),
    ensures
        ws == v,
{
    assert forall|k: int| 0 <= k < ws.len() implies ws[k] == v[k] by {
        assert(<ValueType as Roundtrip>::alike(ws[k], v[k]));
    }
    assert(ws =~= v);
}

impl Roundtrip for Type {
    open spec fn canonical(v: TypeV) -> bool {
        true
    }

    open spec fn alike(a: TypeV, b: TypeV) -> bool {
        a == b
    }

    proof fn lemma_roundtrip(v: TypeV, s: Seq<u8>, pos: int, end: int) {
        let a = seq![0x60u8];
        let b = encode_vec::<ValueType>(v.params);
        let c = encode_vec::<ValueType>(v.results);
        lemma_stands_split(s, pos, end, a + b, c);
        lemma_stands_split(s, pos, end, a, b);
        lemma_u8(s, pos, end, 0x60);
        lemma_value_types(v.params);
        lemma_value_types(v.results);
        lemma_vec::<ValueType>(v.params, s, pos + 1, end);
        lemma_vec::<ValueType>(v.results, s, pos + 1 + b.len(), end);
        let (params, _) = parse_vec::<ValueType>(s, pos + 1, end).unwrap();
        let (results, _) = parse_vec::<ValueType>(s, pos + 1 + b.len(), end).unwrap();
        lemma_same_value_types(params, v.params);
        lemma_same_value_types(results, v.results);
    }

    proof fn lemma_parsed(s: Seq<u8>, pos: int, end: int) {
    }
}

/// Whether two imports are of the same, but for the place of a memory's
/// minimum.
pub open spec fn import_type_alike(a: ImportType, b: ImportType) -> bool {
    match (a, b) {
        (ImportType::Memory(x), ImportType::Memory(y)) => x.min.value == y.min.value && x.max
            == y.max,
        _ => a == b,
    }
}

/// What an import holds is read where its encoding stands, up to the place
/// of a memory's minimum.
pub proof fn lemma_import_type(s: Seq<u8>, pos: int, end: int, t: ImportType)
    requires
        stands(s, pos, end, encode_import_type(t)),
    ensures
        parse_u8(s, pos, end) matches Some((tag, p)) && p == pos + 1 && (parse_import_type(
            s,
            tag,
            p,
            end,
        ) matches Some((w, next)) && next == pos + encode_import_type(t).len()
            && import_type_alike(w, t) && encode_import_type(w) == encode_import_type(t)),
        encode_import_type(t).len() >= 1,
{
    match t {
        ImportType::Func(typeidx) => {
            let a = seq![0x00u8];
            let b = unsigned_leb128(typeidx as nat);
            lemma_stands_split(s, pos, end, a, b);
            lemma_u8(s, pos, end, 0x00);
            lemma_leb128(s, pos + 1, end, typeidx as nat);
        },
        ImportType::Table(table) => {
            let a = seq![0x01u8];
            let b = encode_table(table);
            lemma_stands_split(s, pos, end, a, b);
            lemma_u8(s, pos, end, 0x01);
            lemma_table(s, pos + 1, end, table);
        },
        ImportType::Memory(mem) => {
            let a = seq![0x02u8];
            let b = encode_memory(mem);
            lemma_stands_split(s, pos, end, a, b);
            lemma_u8(s, pos, end, 0x02);
            lemma_memory(s, pos + 1, end, mem);
        },
        ImportType::Global(global_type) => {
            let a = seq![0x03u8];
            let b = encode_global_type(global_type);
            lemma_stands_split(s, pos, end, a, b);
            lemma_u8(s, pos, end, 0x03);
            lemma_global_type(s, pos + 1, end, global_type);
        },
    }
}

impl Roundtrip for Import {
    open spec fn canonical(v: ImportV) -> bool {
        true
    }

    open spec fn alike(a: ImportV, b: ImportV) -> bool {
        a.module == b.module && a.name == b.name && import_type_alike(a.import_type, b.import_type)
    }

    proof fn lemma_roundtrip(v: ImportV, s: Seq<u8>, pos: int, end: int) {
        let a = encode_name(v.module);
        let b = encode_name(v.name);
        let c = encode_import_type(v.import_type);
        lemma_stands_split(s, pos, end, a + b, c);
        lemma_stands_split(s, pos, end, a, b);
        lemma_name(s, pos, end, v.module);
        lemma_name(s, pos + a.len(), end, v.name);
        lemma_import_type(s, pos + a.len() + b.len(), end, v.import_type);
    }

    proof fn lemma_parsed(s: Seq<u8>, pos: int, end: int) {
    }
}

impl Roundtrip for Export {
    open spec fn canonical(v: ExportV) -> bool {
        true
    }

    open spec fn alike(a: ExportV, b: ExportV) -> bool {
        a == b
    }

    proof fn lemma_roundtrip(v: ExportV, s: Seq<u8>, pos: int, end: int) {
        let a = encode_name(v.name);
        let b = encode_export_descr(v.descr);
        lemma_stands_split(s, pos, end, a, b);
        lemma_name(s, pos, end, v.name);
        let p = pos + a.len();
        let (tag, idx): (u8, u32) = match v.descr {
            ExportDescr::Func(idx) => (0x00u8, idx),
            ExportDescr::Table(idx) => (0x01u8, idx),
            ExportDescr::Mem(idx) => (0x02u8, idx),
            ExportDescr::Global(idx) => (0x03u8, idx),
        };
        assert(b =~= seq![tag] + unsigned_leb128(idx as nat));
        lemma_stands_split(s, p, end, seq![tag], unsigned_leb128(idx as nat));
        lemma_u8(s, p, end, tag);
        lemma_leb128(s, p + 1, end, idx as nat);
    }

    proof fn lemma_parsed(s: Seq<u8>, pos: int, end: int) {
    }
}

/// A block type whose encoding stands in `s` is read there.
pub proof fn lemma_blocktype(s: Seq<u8>, pos: int, end: int, t: BlockType)
    requires
        stands(s, pos, end, encode_blocktype(t)),
    ensures
        parse_blocktype(s, pos, end) == Some((t, pos + encode_blocktype(t).len())),
        encode_blocktype(t).len() >= 1,
{
    match t {
        BlockType::Empty => {
            lemma_u8(s, pos, end, 0x40);
        },
        BlockType::ValueType(v) => {
            lemma_value_type(s, pos, end, v);
            assert(s[pos] == s.subrange(pos, pos + 1)[0]);
        },
        BlockType::Typeidx(typeidx) => {
            let enc = signed_leb128(typeidx as int);
            lemma_signed_leb128_len(typeidx as int);
            assert(s[pos] == s.subrange(pos, pos + enc.len())[0]);
            assert(s[pos] < 0x40 || s[pos] >= 0x80);
            lemma_leb128_signed(s, pos, end, typeidx as i64);
        },
    }
}

/// An instruction without immediates is the one that its opcode stands for.
pub proof fn lemma_plain_opcode(x: Instr)
    requires
        opcode(x) matches Some(op) && plain_instr(op) is Some,
        leaf_encodable(x),
    ensures
        plain_instr(opcode(x).unwrap()) == Some(x),
        immediates(x).len() == 0,
{
}

/// The index that an instruction with one index holds.
pub open spec fn index_part(x: Instr) -> Option<u32> {
    match x {
        Instr::br(v) => Some(v),
        Instr::br_if(v) => Some(v),
        Instr::local_get(v) => Some(v),
        Instr::local_set(v) => Some(v),
        Instr::local_tee(v) => Some(v),
        Instr::global_get(v) => Some(v),
        Instr::global_set(v) => Some(v),
        Instr::table_get(v) => Some(v),
        Instr::table_set(v) => Some(v),
        _ => None,
    }
}

/// An instruction with one index is the one that its opcode stands for.
pub proof fn lemma_index_opcode(x: Instr)
    requires
        opcode(x) matches Some(op) && index_instr(op, 0) is Some,
        leaf_encodable(x),
    ensures
        index_part(x) matches Some(v) && index_instr(opcode(x).unwrap(), v) == Some(x)
            && immediates(x) == unsigned_leb128(v as nat),
{
}

/// The two immediates of a load or a store, the first with its place.
pub open spec fn memory_parts(x: Instr) -> Option<(Value<u32>, u32)> {
    match x {
        Instr::i32_load(a, b) => Some((a, b)),
        Instr::i64_load(a, b) => Some((a, b)),
        Instr::f32_load(a, b) => Some((a, b)),
        Instr::f64_load(a, b) => Some((a, b)),
        Instr::i32_load8_s(a, b) => Some((a, b)),
        Instr::i32_load8_u(a, b) => Some((a, b)),
        Instr::i32_load16_s(a, b) => Some((a, b)),
        Instr::i32_load16_u(a, b) => Some((a, b)),
        Instr::i64_load8_s(a, b) => Some((a, b)),
        Instr::i64_load8_u(a, b) => Some((a, b)),
        Instr::i64_load16_s(a, b) => Some((a, b)),
        Instr::i64_load16_u(a, b) => Some((a, b)),
        Instr::i64_load32_s(a, b) => Some((a, b)),
        Instr::i64_load32_u(a, b) => Some((a, b)),
        Instr::i32_store(a, b) => Some((a, b)),
        Instr::i64_store(a, b) => Some((a, b)),
        Instr::f32_store(a, b) => Some((a, b)),
        Instr::f64_store(a, b) => Some((a, b)),
        Instr::i32_store8(a, b) => Some((a, b)),
        Instr::i32_store16(a, b) => Some((a, b)),
        Instr::i64_store8(a, b) => Some((a, b)),
        Instr::i64_store16(a, b) => Some((a, b)),
        Instr::i64_store32(a, b) => Some((a, b)),
        _ => None,
    }
}

/// A load or a store is the one that its opcode stands for, and its
/// immediates are its two numbers.
pub proof fn lemma_memory_opcode(x: Instr)
    requires
        opcode(x) matches Some(op) && 0x28 <= op <= 0x3e,
        leaf_encodable(x),
    ensures
        memory_parts(x) matches Some((a, b)) && memory_instr(opcode(x).unwrap(), a, b) == Some(x)
            && immediates(x) == unsigned_leb128(a.value as nat) + unsigned_leb128(b as nat),
{
}

/// The load or the store that an opcode stands for has that opcode, and
/// for immediates the two numbers that it was given.
pub proof fn lemma_memory_instr(op: u8, c: Value<u32>, d: u32)
    requires
        0x28 <= op <= 0x3e,
    ensures
        memory_instr(op, c, d) matches Some(y) && opcode(y) == Some(op) && leaf_encodable(y)
            && immediates(y) == unsigned_leb128(c.value as nat) + unsigned_leb128(d as nat),
{
}

/// A number without the place where it was read.
pub open spec fn unplaced(v: Value<u32>) -> Value<u32> {
    Value { value: v.value, start_offset: 0, end_offset: 0 }
}

/// An instruction that owns no sequence, without the places where its
/// immediates were read.
pub open spec fn placeless(i: Instr) -> Instr {
    match i {
        Instr::call(v) => Instr::call(unplaced(v)),
        Instr::i32_load(a, b) => Instr::i32_load(unplaced(a), b),
        Instr::i64_load(a, b) => Instr::i64_load(unplaced(a), b),
        Instr::f32_load(a, b) => Instr::f32_load(unplaced(a), b),
        Instr::f64_load(a, b) => Instr::f64_load(unplaced(a), b),
        Instr::i32_load8_s(a, b) => Instr::i32_load8_s(unplaced(a), b),
        Instr::i32_load8_u(a, b) => Instr::i32_load8_u(unplaced(a), b),
        Instr::i32_load16_s(a, b) => Instr::i32_load16_s(unplaced(a), b),
        Instr::i32_load16_u(a, b) => Instr::i32_load16_u(unplaced(a), b),
        Instr::i64_load8_s(a, b) => Instr::i64_load8_s(unplaced(a), b),
        Instr::i64_load8_u(a, b) => Instr::i64_load8_u(unplaced(a), b),
        Instr::i64_load16_s(a, b) => Instr::i64_load16_s(unplaced(a), b),
        Instr::i64_load16_u(a, b) => Instr::i64_load16_u(unplaced(a), b),
        Instr::i64_load32_s(a, b) => Instr::i64_load32_s(unplaced(a), b),
        Instr::i64_load32_u(a, b) => Instr::i64_load32_u(unplaced(a), b),
        Instr::i32_store(a, b) => Instr::i32_store(unplaced(a), b),
        Instr::i64_store(a, b) => Instr::i64_store(unplaced(a), b),
        Instr::f32_store(a, b) => Instr::f32_store(unplaced(a), b),
        Instr::f64_store(a, b) => Instr::f64_store(unplaced(a), b),
        Instr::i32_store8(a, b) => Instr::i32_store8(unplaced(a), b),
        Instr::i32_store16(a, b) => Instr::i32_store16(unplaced(a), b),
        Instr::i64_store8(a, b) => Instr::i64_store8(unplaced(a), b),
        Instr::i64_store16(a, b) => Instr::i64_store16(unplaced(a), b),
        Instr::i64_store32(a, b) => Instr::i64_store32(unplaced(a), b),
        _ => i,
    }
}

/// Whether two instructions are the same but for the places where they and
/// their parts were read.
pub open spec fn instr_alike(a: InstrV, b: InstrV) -> bool
    decreases a,
{
    match (a, b) {
        (InstrV::Leaf(x), InstrV::Leaf(y)) => placeless(x) == placeless(y),
        (InstrV::BrTable(l, d), InstrV::BrTable(m, e)) => l == m && d == e,
        (InstrV::Block(t, x), InstrV::Block(u, y)) => t == u && nodes_alike(x.value, y.value),
        (InstrV::Loop(t, x), InstrV::Loop(u, y)) => t == u && nodes_alike(x.value, y.value),
        (InstrV::If(t, x), InstrV::If(u, y)) => t == u && nodes_alike(x.value, y.value),
        _ => false,
    }
}

/// Whether two sequences hold the same instructions, one for one, but for
/// the places where they were read.
pub open spec fn nodes_alike(a: Seq<Value<InstrV>>, b: Seq<Value<InstrV>>) -> bool
    decreases a,
{
    a.len() == b.len() && forall|k: int|
        0 <= k < a.len() ==> instr_alike((#[trigger] a[k]).value, b[k].value)
}

/// The load or the store that an opcode stands for is the same, but for a
/// place, whatever the place of its first immediate.
pub proof fn lemma_memory_placeless(op: u8, a: Value<u32>, c: Value<u32>, b: u32)
    requires
        0x28 <= op <= 0x3e,
        a.value == c.value,
    ensures
        memory_instr(op, a, b) matches Some(x) && memory_instr(op, c, b) matches Some(y)
            && placeless(x) == placeless(y),
{
}

/// An instruction that owns no sequence is read where its encoding stands,
/// as an instruction with the same encoding.
pub proof fn lemma_leaf(x: Instr, s: Seq<u8>, pos: int, end: int)
    requires
        leaf_encodable(x),
        stands(s, pos, end, encode_instr(InstrV::Leaf(x))),
    ensures
        encode_instr(InstrV::Leaf(x)).len() >= 1,
        parse_instr(s, pos, end) matches Some((w, next)) && next == pos + encode_instr(
            InstrV::Leaf(x),
        ).len() && (w.value matches InstrV::Leaf(y) && leaf_encodable(y) && opcode(y) == opcode(x)
            && placeless(y) == placeless(x)) && encode_instr(w.value) == encode_instr(
            InstrV::Leaf(x),
        ),
{
    let op = opcode(x).unwrap();
    let imm = immediates(x);
    lemma_stands_split(s, pos, end, seq![op], imm);
    lemma_u8(s, pos, end, op);
    let p = pos + 1;
    if plain_instr(op) is Some {
        lemma_plain_opcode(x);
    } else if index_instr(op, 0) is Some {
        lemma_index_opcode(x);
        let v = index_part(x).unwrap();
        lemma_leb128(s, p, end, v as nat);
    } else if op == 0x10 {
        match x {
            Instr::call(v) => {
                lemma_leb128(s, p, end, v.value as nat);
            },
            _ => {},
        }
    } else if op == 0x11 {
        match x {
            Instr::call_indirect(a, b) => {
                lemma_stands_split(s, p, end, unsigned_leb128(a as nat), unsigned_leb128(b as nat));
                lemma_leb128(s, p, end, a as nat);
                lemma_leb128(s, p + unsigned_leb128(a as nat).len(), end, b as nat);
            },
            _ => {},
        }
    } else if 0x28 <= op <= 0x3e {
        lemma_memory_opcode(x);
        let (a, b) = memory_parts(x).unwrap();
        lemma_stands_split(s, p, end, unsigned_leb128(a.value as nat), unsigned_leb128(b as nat));
        lemma_leb128(s, p, end, a.value as nat);
        let q = p + unsigned_leb128(a.value as nat).len();
        lemma_leb128(s, q, end, b as nat);
        let c = Value { value: a.value, start_offset: p as usize, end_offset: q as usize };
        lemma_memory_instr(op, c, b);
        lemma_memory_placeless(op, a, c, b);
    } else if op == 0x3f || op == 0x40 {
        match x {
            Instr::memory_size(m) => {
                lemma_u8(s, p, end, m);
            },
            Instr::memory_grow(m) => {
                lemma_u8(s, p, end, m);
            },
            _ => {},
        }
    } else if op == 0x41 || op == 0x42 {
        match x {
            Instr::i32_const(v) => {
                lemma_leb128_signed(s, p, end, v);
            },
            Instr::i64_const(v) => {
                lemma_leb128_signed(s, p, end, v);
            },
            _ => {},
        }
    } else if op == 0x43 {
        match x {
            Instr::f32_const(bits) => {
                lemma_le_limit();
                lemma_le_round_trip(bits as nat, 4);
                lemma_bytes(s, p, end, le_bytes(bits as nat, 4));
            },
            _ => {},
        }
    } else if op == 0x44 {
        match x {
            Instr::f64_const(bits) => {
                lemma_le_limit();
                lemma_le_round_trip(bits as nat, 8);
                lemma_bytes(s, p, end, le_bytes(bits as nat, 8));
            },
            _ => {},
        }
    } else if op == 0xfc {
        match x {
            Instr::memory_copy(a, b) => {
                assert(imm =~= seq![10u8] + seq![a] + seq![b]);
                lemma_stands_split(s, p, end, seq![10u8] + seq![a], seq![b]);
                lemma_stands_split(s, p, end, seq![10u8], seq![a]);
                lemma_u8(s, p, end, 10);
                lemma_u8(s, p + 1, end, a);
                lemma_u8(s, p + 2, end, b);
            },
            Instr::memory_fill(a) => {
                assert(imm =~= seq![11u8] + seq![a]);
                lemma_stands_split(s, p, end, seq![11u8], seq![a]);
                lemma_u8(s, p, end, 11);
                lemma_u8(s, p + 1, end, a);
            },
            _ => {},
        }
    } else {
    }
}

/// Whether an instruction is `end`.
pub open spec fn is_end(i: InstrV) -> bool {
    i == InstrV::Leaf(Instr::end)
}

/// Whether the encoding of an instruction is read back: it has an opcode,
/// and where it owns a body, that body is read back.
pub open spec fn instr_canonical(i: InstrV) -> bool
    decreases i,
{
    match i {
        InstrV::Leaf(x) => leaf_encodable(x),
        InstrV::BrTable(..) => true,
        InstrV::Block(_, body) => body_canonical(body.value, 0),
        InstrV::Loop(_, body) => body_canonical(body.value, 0),
        InstrV::If(_, body) => body_canonical(body.value, 0),
    }
}

/// Whether the encoding of the instructions `nodes[from..]` is read back as
/// an expression: each is read back, the last is `end`, and no other is.
pub open spec fn body_canonical(nodes: Seq<Value<InstrV>>, from: nat) -> bool
    decreases nodes, nodes.len() - from,
{
    if from >= nodes.len() {
        false
    } else if from + 1 == nodes.len() {
        is_end(nodes[from as int].value)
    } else {
        !is_end(nodes[from as int].value) && instr_canonical(nodes[from as int].value)
            && body_canonical(nodes, from + 1)
    }
}

/// The encodings of the instructions `nodes[from..]`, one after the other.
pub open spec fn encode_from(nodes: Seq<Value<InstrV>>, from: nat) -> Seq<u8>
    decreases nodes.len() - from,
{
    if from >= nodes.len() {
        Seq::empty()
    } else {
        encode_instr(nodes[from as int].value) + encode_from(nodes, from + 1)
    }
}

/// The encoding of instructions is that of the first `n`, then that of the
/// others.
pub proof fn lemma_encode_from(nodes: Seq<Value<InstrV>>, n: nat)
    requires
        n <= nodes.len(),
    ensures
        encode_nodes(nodes, nodes.len()) == encode_nodes(nodes, n) + encode_from(nodes, n),
    decreases nodes.len() - n,
{
    if n < nodes.len() {
        lemma_encode_from(nodes, n + 1);
        assert(encode_nodes(nodes, n + 1) + encode_from(nodes, n + 1) =~= encode_nodes(nodes, n)
            + encode_from(nodes, n));
    } else {
        assert(encode_nodes(nodes, n) + encode_from(nodes, n) =~= encode_nodes(nodes, n));
    }
}

/// The encoding of an instruction followed by others is its encoding, then
/// theirs; and all have an encoding where it has one and they have.
pub proof fn lemma_encode_nodes_front(x: Value<InstrV>, xs: Seq<Value<InstrV>>, n: nat)
    requires
        n <= xs.len(),
    ensures
        encode_nodes(seq![x] + xs, n + 1) == encode_instr(x.value) + encode_nodes(xs, n),
        nodes_encodable(seq![x] + xs, n + 1) == (instr_encodable(x.value) && nodes_encodable(
            xs,
            n,
        )),
    decreases n,
{
    let all = seq![x] + xs;
    if n == 0 {
        assert(all[0] == x);
        assert(encode_nodes(all, 0) =~= Seq::<u8>::empty());
        assert(nodes_encodable(all, 0));
        assert(nodes_encodable(xs, 0));
        assert(encode_nodes(all, 1) =~= encode_instr(x.value));
        assert(encode_instr(x.value) + encode_nodes(xs, 0) =~= encode_instr(x.value));
    } else {
        lemma_encode_nodes_front(x, xs, (n - 1) as nat);
        assert(all[n as int] == xs[n - 1]);
        assert(encode_nodes(all, n + 1) =~= encode_instr(x.value) + encode_nodes(xs, n));
    }
}

/// Every index has an encoding and is read back.
pub proof fn lemma_indices(v: Seq<u32>)
    ensures
        all_canonical::<u32>(v),
        all_encodable::<u32>(v),
{
}

/// Indices that are the same one for one are the same.
pub proof fn lemma_same_indices(ws: Seq<u32>, v: Seq<u32>)
    requires
        all_alike::<u32>(ws, v),
    ensures
        ws == v,
{
    assert forall|k: int| 0 <= k < ws.len() implies ws[k] == v[k] by {
        assert(<u32 as Roundtrip>::alike(ws[k], v[k]));
    }
    assert(ws =~= v);
}

/// What is read where the encoding of `node` stands: the same instruction
/// but for places, with the same encoding, which is `end` if and only if
/// `node` is.
pub open spec fn reads_back(node: InstrV, s: Seq<u8>, pos: int, end: int) -> bool {
    parse_instr(s, pos, end) matches Some((w, next)) && next == pos + encode_instr(node).len()
        && instr_encodable(w.value) && instr_alike(w.value, node) && encode_instr(w.value)
        == encode_instr(node) && is_end(w.value) == is_end(node)
}

/// Whether `ws` are the instructions of `nodes` from `from` on, one for
/// one, but for the places where they were read.
pub open spec fn nodes_alike_from(
    ws: Seq<Value<InstrV>>,
    nodes: Seq<Value<InstrV>>,
    from: nat,
) -> bool {
    ws.len() + from == nodes.len() && forall|k: int|
        0 <= k < ws.len() ==> instr_alike((#[trigger] ws[k]).value, nodes[from + k].value)
}

/// Only `end` has the opcode of `end`.
pub proof fn lemma_end_opcode(x: Instr)
    requires
        leaf_encodable(x),
    ensures
        opcode(x) == Some(0x0bu8) <==> x == Instr::end,
{
}

/// An instruction that owns no sequence is read back.
pub proof fn lemma_instr_leaf(x: Instr, s: Seq<u8>, pos: int, end: int)
    requires
        leaf_encodable(x),
        stands(s, pos, end, encode_instr(InstrV::Leaf(x))),
    ensures
        encode_instr(InstrV::Leaf(x)).len() >= 1,
        reads_back(InstrV::Leaf(x), s, pos, end),
{
    lemma_leaf(x, s, pos, end);
    let (w, next) = parse_instr(s, pos, end).unwrap();
    match w.value {
        InstrV::Leaf(y) => {
            lemma_end_opcode(x);
            lemma_end_opcode(y);
        },
        _ => {},
    }
}

/// A `br_table` is read back.
pub proof fn lemma_br_table(labels: Seq<u32>, default: u32, s: Seq<u8>, pos: int, end: int)
    requires
        stands(s, pos, end, encode_instr(InstrV::BrTable(labels, default))),
        encode_instr(InstrV::BrTable(labels, default)).len() < 0x1_0000_0000,
    ensures
        encode_instr(InstrV::BrTable(labels, default)).len() >= 1,
        reads_back(InstrV::BrTable(labels, default), s, pos, end),
{
    let a = seq![0x0eu8];
    let b = encode_vec::<u32>(labels);
    let c = unsigned_leb128(default as nat);
    lemma_stands_split(s, pos, end, a + b, c);
    lemma_stands_split(s, pos, end, a, b);
    lemma_u8(s, pos, end, 0x0e);
    lemma_indices(labels);
    lemma_vec::<u32>(labels, s, pos + 1, end);
    lemma_leb128(s, pos + 1 + b.len(), end, default as nat);
    let (ws, p) = parse_vec::<u32>(s, pos + 1, end).unwrap();
    lemma_same_indices(ws, labels);
    assert(parse_leaf(s, 0x0e, pos + 1, end) == Some(
        (InstrV::BrTable(ws, default), p + c.len()),
    ));
}

/// An instruction is read where its encoding stands, as an instruction
/// with the same encoding, and as `end` if and only if it is `end`.
pub proof fn lemma_instr(node: InstrV, s: Seq<u8>, pos: int, end: int)
    requires
        instr_canonical(node),
        stands(s, pos, end, encode_instr(node)),
        encode_instr(node).len() < 0x1_0000_0000,
    ensures
        encode_instr(node).len() >= 1,
        reads_back(node, s, pos, end),
    decreases node, 0nat,
{
    match node {
        InstrV::Leaf(x) => {
            lemma_instr_leaf(x, s, pos, end);
        },
        InstrV::BrTable(labels, default) => {
            lemma_br_table(labels, default, s, pos, end);
        },
        InstrV::Block(t, body) => {
            lemma_structured(0x02, t, body.value, s, pos, end);
        },
        InstrV::Loop(t, body) => {
            lemma_structured(0x03, t, body.value, s, pos, end);
        },
        InstrV::If(t, body) => {
            lemma_structured(0x04, t, body.value, s, pos, end);
        },
    }
}

/// The bytes of a structured instruction: its opcode, its block type, its
/// body.
pub open spec fn encode_structured(op: u8, t: BlockType, nodes: Seq<Value<InstrV>>) -> Seq<u8> {
    seq![op] + encode_blocktype(t) + encode_nodes(nodes, nodes.len())
}

/// A structured instruction is read where its encoding stands.
pub proof fn lemma_structured(
    op: u8,
    t: BlockType,
    nodes: Seq<Value<InstrV>>,
    s: Seq<u8>,
    pos: int,
    end: int,
)
    requires
        op == 0x02 || op == 0x03 || op == 0x04,
        body_canonical(nodes, 0),
        stands(s, pos, end, encode_structured(op, t, nodes)),
        encode_structured(op, t, nodes).len() < 0x1_0000_0000,
    ensures
        parse_instr(s, pos, end) matches Some((w, next)) && next == pos + encode_structured(
            op,
            t,
            nodes,
        ).len() && (nested(w.value) matches Some((u, body)) && u == t && nodes_encodable(
            body,
            body.len(),
        ) && nodes_alike(body, nodes) && encode_nodes(body, body.len()) == encode_nodes(
            nodes,
            nodes.len(),
        ) && w.value == structured(
            op,
            t,
            Value {
                value: body,
                start_offset: (pos + 1 + encode_blocktype(t).len()) as usize,
                end_offset: next as usize,
            },
        )),
    decreases nodes, 1nat,
{
    let a = seq![op];
    let b = encode_blocktype(t);
    let c = encode_nodes(nodes, nodes.len());
    lemma_stands_split(s, pos, end, a + b, c);
    lemma_stands_split(s, pos, end, a, b);
    lemma_u8(s, pos, end, op);
    lemma_blocktype(s, pos + 1, end, t);
    lemma_encode_from(nodes, 0);
    assert(encode_nodes(nodes, 0) + encode_from(nodes, 0) =~= encode_from(nodes, 0));
    lemma_nodes(nodes, 0, s, pos + 1 + b.len(), end);
}

/// The block type and the body of a structured instruction.
pub open spec fn nested(i: InstrV) -> Option<(BlockType, Seq<Value<InstrV>>)> {
    match i {
        InstrV::Block(t, body) => Some((t, body.value)),
        InstrV::Loop(t, body) => Some((t, body.value)),
        InstrV::If(t, body) => Some((t, body.value)),
        _ => None,
    }
}

/// The instructions of an expression are read where their encodings stand,
/// up to the `end` that is the last of them.
pub proof fn lemma_nodes(nodes: Seq<Value<InstrV>>, from: nat, s: Seq<u8>, pos: int, end: int)
    requires
        body_canonical(nodes, from),
        stands(s, pos, end, encode_from(nodes, from)),
        encode_from(nodes, from).len() < 0x1_0000_0000,
    ensures
        parse_instrs(s, pos, end) matches Some((ws, next)) && next == pos + encode_from(
            nodes,
            from,
        ).len() && nodes_encodable(ws, ws.len()) && nodes_alike_from(ws, nodes, from)
            && encode_nodes(ws, ws.len()) == encode_from(nodes, from),
    decreases nodes, 0nat, nodes.len() - from,
{
    let x = nodes[from as int];
    let head = encode_instr(x.value);
    let tail = encode_from(nodes, from + 1);
    lemma_stands_split(s, pos, end, head, tail);
    if from + 1 == nodes.len() {
        assert(tail =~= Seq::<u8>::empty());
        lemma_leaf(Instr::end, s, pos, end);
        let (w, p) = parse_instr(s, pos, end).unwrap();
        assert(w.value == InstrV::Leaf(Instr::end));
        lemma_encode_nodes_front(w, Seq::empty(), 0);
        assert(seq![w] + Seq::<Value<InstrV>>::empty() =~= seq![w]);
        assert(head + tail =~= head);
        assert(seq![w][0] == w);
    } else {
        lemma_instr(x.value, s, pos, end);
        let (w, p) = parse_instr(s, pos, end).unwrap();
        lemma_nodes(nodes, from + 1, s, p, end);
        let (ws, q) = parse_instrs(s, p, end).unwrap();
        lemma_encode_nodes_front(w, ws, ws.len());
        let all = seq![w] + ws;
        assert forall|k: int| 0 <= k < all.len() implies instr_alike(
            (#[trigger] all[k]).value,
            nodes[from + k].value,
        ) by {
            if k > 0 {
                assert(all[k] == ws[k - 1]);
            }
        }
    }
}

/// An expression is read where its encoding stands, as an expression with
/// the same encoding.
pub proof fn lemma_expr(nodes: Seq<Value<InstrV>>, s: Seq<u8>, pos: int, end: int)
    requires
        body_canonical(nodes, 0),
        stands(s, pos, end, encode_nodes(nodes, nodes.len())),
        encode_nodes(nodes, nodes.len()).len() < 0x1_0000_0000,
    ensures
        encode_nodes(nodes, nodes.len()).len() >= 1,
        parse_expr(s, pos, end) matches Some((w, next)) && next == pos + encode_nodes(
            nodes,
            nodes.len(),
        ).len() && expr_encodable(w) && nodes_alike(w.value, nodes) && encode_expr(w)
            == encode_nodes(nodes, nodes.len()),
{
    lemma_encode_from(nodes, 0);
    assert(encode_nodes(nodes, 0) + encode_from(nodes, 0) =~= encode_from(nodes, 0));
    lemma_nodes(nodes, 0, s, pos, end);
    lemma_body_len(nodes, 0);
}

/// The encoding of an expression holds at least one byte.
pub proof fn lemma_body_len(nodes: Seq<Value<InstrV>>, from: nat)
    requires
        body_canonical(nodes, from),
    ensures
        encode_from(nodes, from).len() >= 1,
{
    let x = nodes[from as int].value;
    lemma_instr_len(x);
    assert(encode_from(nodes, from) == encode_instr(x) + encode_from(nodes, from + 1));
}

/// The encoding of an instruction that has one holds at least one byte.
pub proof fn lemma_instr_len(x: InstrV)
    requires
        is_end(x) || instr_canonical(x),
    ensures
        encode_instr(x).len() >= 1,
{
    match x {
        InstrV::Leaf(y) => {
            assert(opcode(y) is Some);
        },
        _ => {},
    }
}

impl Roundtrip for Global {
    open spec fn canonical(v: GlobalV) -> bool {
        body_canonical(v.expr.value, 0)
    }

    open spec fn alike(a: GlobalV, b: GlobalV) -> bool {
        a.global_type == b.global_type && nodes_alike(a.expr.value, b.expr.value)
    }

    proof fn lemma_roundtrip(v: GlobalV, s: Seq<u8>, pos: int, end: int) {
        let a = encode_global_type(v.global_type);
        let b = encode_expr(v.expr);
        lemma_stands_split(s, pos, end, a, b);
        lemma_global_type(s, pos, end, v.global_type);
        lemma_expr(v.expr.value, s, pos + 2, end);
    }

    proof fn lemma_parsed(s: Seq<u8>, pos: int, end: int) {
        match parse_global_type(s, pos, end) {
            Some((_, p)) => lemma_parsed_expr(s, p, end),
            None => {},
        }
    }
}

impl Roundtrip for Element {
    open spec fn canonical(v: ElementV) -> bool {
        match v {
            ElementV::FuncActive(offset, _) => body_canonical(offset.value, 0),
        }
    }

    open spec fn alike(a: ElementV, b: ElementV) -> bool {
        match (a, b) {
            (ElementV::FuncActive(x, f), ElementV::FuncActive(y, g)) => nodes_alike(
                x.value,
                y.value,
            ) && f == g,
        }
    }

    proof fn lemma_roundtrip(v: ElementV, s: Seq<u8>, pos: int, end: int) {
        match v {
            ElementV::FuncActive(offset, funcs) => {
                let a = seq![0u8];
                let b = encode_expr(offset);
                let c = encode_vec::<u32>(funcs);
                lemma_stands_split(s, pos, end, a + b, c);
                lemma_stands_split(s, pos, end, a, b);
                assert(unsigned_leb128(0) =~= a);
                lemma_leb128(s, pos, end, 0);
                lemma_expr(offset.value, s, pos + 1, end);
                lemma_indices(funcs);
                lemma_vec::<u32>(funcs, s, pos + 1 + b.len(), end);
                let (ws, _) = parse_vec::<u32>(s, pos + 1 + b.len(), end).unwrap();
                lemma_same_indices(ws, funcs);
            },
        }
    }

    proof fn lemma_parsed(s: Seq<u8>, pos: int, end: int) {
        match parse_leb128(s, pos, end) {
            Some((_, p)) => lemma_parsed_expr(s, p, end),
            None => {},
        }
    }
}

impl Roundtrip for DataSegment {
    open spec fn canonical(v: DataSegmentV) -> bool {
        match v.offset {
            Some(offset) => v.mode == DataSegmentMode::Active && body_canonical(offset.value, 0),
            None => v.mode == DataSegmentMode::Passive,
        }
    }

    open spec fn alike(a: DataSegmentV, b: DataSegmentV) -> bool {
        a.mode == b.mode && a.bytes == b.bytes && match (a.offset, b.offset) {
            (Some(x), Some(y)) => nodes_alike(x.value, y.value),
            (None, None) => true,
            _ => false,
        }
    }

    proof fn lemma_roundtrip(v: DataSegmentV, s: Seq<u8>, pos: int, end: int) {
        match v.offset {
            Some(offset) => {
                let a = unsigned_leb128(0);
                let b = encode_expr(offset);
                let c = encode_byte_vec(v.bytes);
                assert(encode_data(v) =~= a + b + c);
                lemma_stands_split(s, pos, end, a + b, c);
                lemma_stands_split(s, pos, end, a, b);
                lemma_leb128(s, pos, end, 0);
                lemma_expr(offset.value, s, pos + a.len(), end);
                lemma_byte_vec(s, pos + a.len() + b.len(), end, v.bytes);
            },
            None => {
                let a = unsigned_leb128(1);
                let c = encode_byte_vec(v.bytes);
                lemma_stands_split(s, pos, end, a, c);
                lemma_leb128(s, pos, end, 1);
                lemma_byte_vec(s, pos + a.len(), end, v.bytes);
            },
        }
    }

    proof fn lemma_parsed(s: Seq<u8>, pos: int, end: int) {
        match parse_leb128(s, pos, end) {
            Some((_, p)) => lemma_parsed_expr(s, p, end),
            None => {},
        }
    }
}

/// Every run of locals has an encoding and is read back.
pub proof fn lemma_code_locals(v: Seq<CodeLocal>)
    ensures
        all_canonical::<CodeLocal>(v),
        all_encodable::<CodeLocal>(v),
{
}

/// Runs of locals that are the same one for one are the same.
pub proof fn lemma_same_locals(ws: Seq<CodeLocal>, v: Seq<CodeLocal>)
    requires
        all_alike::<CodeLocal>(ws, v),
    ensures
        ws == v,
{
    assert forall|k: int| 0 <= k < ws.len() implies ws[k] == v[k] by {
        assert(<CodeLocal as Roundtrip>::alike(ws[k], v[k]));
    }
    assert(ws =~= v);
}

impl Roundtrip for Code {
    open spec fn canonical(v: CodeV) -> bool {
        body_canonical(v.body.value, 0)
    }

    open spec fn alike(a: CodeV, b: CodeV) -> bool {
        a.locals == b.locals && nodes_alike(a.body.value, b.body.value)
    }

    proof fn lemma_roundtrip(v: CodeV, s: Seq<u8>, pos: int, end: int) {
        let a = encode_vec::<CodeLocal>(v.locals);
        let b = encode_expr(v.body);
        let content = a + b;
        let len = unsigned_leb128(content.len());
        lemma_stands_split(s, pos, end, len, content);
        lemma_leb128(s, pos, end, content.len());
        let p = pos + len.len();
        let q = p + content.len();
        lemma_bytes(s, p, end, content);
        assert(stands(s, p, q, content));
        lemma_stands_split(s, p, q, a, b);
        lemma_code_locals(v.locals);
        lemma_vec::<CodeLocal>(v.locals, s, p, q);
        let (ws, _) = parse_vec::<CodeLocal>(s, p, q).unwrap();
        lemma_same_locals(ws, v.locals);
        lemma_expr(v.body.value, s, p + a.len(), q);
    }

    proof fn lemma_parsed(s: Seq<u8>, pos: int, end: int) {
        match parse_leb128(s, pos, end) {
            Some((size, p)) => match parse_bytes(s, p, end, size as int) {
                Some((_, q)) => match parse_vec::<CodeLocal>(s, p, q) {
                    Some((_, r)) => lemma_parsed_expr(s, r, q),
                    None => {},
                },
                None => {},
            },
            None => {},
        }
    }
}

/// The names that the decoder knows are four different names.
pub proof fn lemma_section_names()
    ensures
        "core"@ != "name"@,
        "corestack"@ != "name"@,
        "corestack"@ != "core"@,
        "build_id"@ != "name"@,
        "build_id"@ != "core"@,
        "build_id"@ != "corestack"@,
{
    reveal_strlit("name");
    reveal_strlit("core");
    reveal_strlit("corestack");
    reveal_strlit("build_id");
    assert("core"@[0] != "name"@[0]);
    assert("corestack"@.len() != "name"@.len());
    assert("build_id"@.len() != "name"@.len());
}

/// Whether `name` is none of the names that the decoder knows.
pub open spec fn free_name(name: Seq<char>) -> bool {
    name != "name"@ && name != "core"@ && name != "corestack"@
}

/// Where the written pairs of a map end the input, as many pairs as the
/// map has there are read, and no more: to ask for more fails.
pub proof fn lemma_name_pairs(
    m: Map<u32, Seq<char>>,
    from: nat,
    to: nat,
    remaining: nat,
    acc: Map<u32, Seq<char>>,
    s: Seq<u8>,
    pos: int,
    end: int,
)
    requires
        from <= to <= 0x1_0000_0000,
        present(m, from, to) <= remaining,
        stands(s, pos, end, encode_pairs_from(m, from, to)),
        end == pos + encode_pairs_from(m, from, to).len(),
        encode_pairs_from(m, from, to).len() < 0x1_0000_0000,
    ensures
        parse_name_pairs(s, pos, end, remaining, acc) == if present(m, from, to) == remaining {
            Some((with_names(acc, m, from, to), end))
        } else {
            None
        },
    decreases to - from,
{
    if from < to {
        let rest = encode_pairs_from(m, from + 1, to);
        if m.contains_key(from as u32) {
            let key = unsigned_leb128(from);
            let name = encode_name(m[from as u32]);
            assert(encode_pairs_from(m, from, to) =~= key + name + rest);
            lemma_stands_split(s, pos, end, key + name, rest);
            lemma_stands_split(s, pos, end, key, name);
            lemma_leb128(s, pos, end, from);
            lemma_name(s, pos + key.len(), end, m[from as u32]);
            lemma_name_pairs(
                m,
                from + 1,
                to,
                (remaining - 1) as nat,
                acc.insert(from as u32, m[from as u32]),
                s,
                pos + key.len() + name.len(),
                end,
            );
        } else {
            assert(encode_pairs_from(m, from, to) =~= rest);
            lemma_name_pairs(m, from + 1, to, remaining, acc, s, pos, end);
        }
    } else if remaining > 0 {
        assert(parse_leb128(s, pos, end) is None);
    }
}

/// Whether the encoding of the names of a `name` section is read back: its
/// function names, where it has any, are fewer than 2^32. The name of the
/// module and the names of locals are not written, and so are not asked
/// about.
pub open spec fn names_canonical(d: DebugNamesV) -> bool {
    match d.func_names {
        Some(m) => m.dom().finite() && m.len() < 0x1_0000_0000,
        None => true,
    }
}

/// The names of a `name` section are read where their encoding stands and
/// ends: the function names that it holds, and no others.
pub proof fn lemma_debug_names(d: DebugNamesV, s: Seq<u8>, pos: int, end: int)
    requires
        names_canonical(d),
        stands(s, pos, end, encode_debug_names(d)),
        end == pos + encode_debug_names(d).len(),
        encode_debug_names(d).len() < 0x1_0000_0000,
    ensures
        parse_debug_names(s, pos, end) == Some(
            DebugNamesV { module: None, func_names: d.func_names, func_local_names: None },
        ),
{
    match d.func_names {
        Some(m) => {
            let n = m.len();
            let all: nat = 0x1_0000_0000;
            let pairs = encode_name_pairs(m, all);
            let map = unsigned_leb128(n) + pairs;
            assert(map == encode_namemap(m));
            let size = unsigned_leb128(map.len());
            assert(encode_debug_names(d) =~= seq![1u8] + size + map);
            lemma_stands_split(s, pos, end, seq![1u8] + size, map);
            lemma_stands_split(s, pos, end, seq![1u8], size);
            lemma_u8(s, pos, end, 1);
            lemma_leb128(s, pos + 1, end, map.len());
            let q = pos + 1 + size.len();
            lemma_stands_split(s, q, end, unsigned_leb128(n), pairs);
            lemma_leb128(s, q, end, n);
            let r = q + unsigned_leb128(n).len();
            lemma_encode_pairs_from(m, 0, all);
            assert(encode_name_pairs(m, 0) + encode_pairs_from(m, 0, all) =~= encode_pairs_from(
                m,
                0,
                all,
            ));
            lemma_all_names(m);
            lemma_name_pairs(m, 0, all, n, Map::empty(), s, r, end);
            assert(parse_namemap(s, q, end) == Some((m, end)));
            assert(parse_name_subsections(s, end, end, Some(m)) == Some(Some(m)));
        },
        None => {
            assert(encode_debug_names(d).len() == 0);
        },
    }
}

/// The frames from `from` on, one after the other.
pub open spec fn encode_frames_from(frames: Seq<StackFrameV>, from: nat) -> Seq<u8>
    decreases frames.len() - from,
{
    if from >= frames.len() {
        Seq::empty()
    } else {
        encode_frame(frames[from as int]) + encode_frames_from(frames, from + 1)
    }
}

/// The encoding of frames is that of the first `n`, then that of the
/// others.
pub proof fn lemma_encode_frames_from(frames: Seq<StackFrameV>, n: nat)
    requires
        n <= frames.len(),
    ensures
        encode_frames(frames, frames.len()) == encode_frames(frames, n) + encode_frames_from(
            frames,
            n,
        ),
    decreases frames.len() - n,
{
    if n < frames.len() {
        lemma_encode_frames_from(frames, n + 1);
        assert(encode_frames(frames, n + 1) + encode_frames_from(frames, n + 1) =~= encode_frames(
            frames,
            n,
        ) + encode_frames_from(frames, n));
    } else {
        assert(encode_frames(frames, n) + encode_frames_from(frames, n) =~= encode_frames(
            frames,
            n,
        ));
    }
}

/// The encoding of a frame followed by others is its encoding, then theirs.
pub proof fn lemma_encode_frames_front(x: StackFrameV, xs: Seq<StackFrameV>, n: nat)
    requires
        n <= xs.len(),
    ensures
        encode_frames(seq![x] + xs, n + 1) == encode_frame(x) + encode_frames(xs, n),
    decreases n,
{
    let all = seq![x] + xs;
    if n == 0 {
        assert(all[0] == x);
        assert(encode_frames(all, 0) =~= Seq::<u8>::empty());
        assert(encode_frames(all, 1) =~= encode_frame(x));
        assert(encode_frame(x) + encode_frames(xs, 0) =~= encode_frame(x));
    } else {
        lemma_encode_frames_front(x, xs, (n - 1) as nat);
        assert(all[n as int] == xs[n - 1]);
        assert(encode_frames(all, n + 1) =~= encode_frame(x) + encode_frames(xs, n));
    }
}

/// Whether `ws` are the frames of `frames` from `from` on, one for one, in
/// what is written of a frame: the function and the place in its code.
pub open spec fn frames_alike_from(
    ws: Seq<StackFrameV>,
    frames: Seq<StackFrameV>,
    from: nat,
) -> bool {
    ws.len() + from == frames.len() && forall|k: int|
        0 <= k < ws.len() ==> (#[trigger] ws[k]).funcidx == frames[from + k].funcidx
            && ws[k].codeoffset == frames[from + k].codeoffset
}

/// A frame is read where its encoding stands, without locals.
pub proof fn lemma_frame(x: StackFrameV, s: Seq<u8>, pos: int, end: int)
    requires
        stands(s, pos, end, encode_frame(x)),
    ensures
        encode_frame(x).len() >= 1,
        parse_stack_frame(s, pos, end) matches Some((w, next)) && next == pos + encode_frame(
            x,
        ).len() && w.funcidx == x.funcidx && w.codeoffset == x.codeoffset && encode_frame(w)
            == encode_frame(x),
{
    let a = seq![0x0u8];
    let b = unsigned_leb128(x.funcidx as nat);
    let c = unsigned_leb128(x.codeoffset as nat);
    let z = unsigned_leb128(0);
    lemma_stands_split(s, pos, end, a + b + c + z, z);
    lemma_stands_split(s, pos, end, a + b + c, z);
    lemma_stands_split(s, pos, end, a + b, c);
    lemma_stands_split(s, pos, end, a, b);
    lemma_u8(s, pos, end, 0);
    lemma_leb128(s, pos + 1, end, x.funcidx as nat);
    lemma_leb128(s, pos + 1 + b.len(), end, x.codeoffset as nat);
    lemma_leb128(s, pos + 1 + b.len() + c.len(), end, 0);
    lemma_leb128(s, pos + 1 + b.len() + c.len() + z.len(), end, 0);
}

/// Frames are read where their encodings stand.
pub proof fn lemma_frames(frames: Seq<StackFrameV>, from: nat, s: Seq<u8>, pos: int, end: int)
    requires
        from <= frames.len(),
        stands(s, pos, end, encode_frames_from(frames, from)),
    ensures
        parse_items::<StackFrame>(s, pos, end, (frames.len() - from) as nat) matches Some(
            (ws, next),
        ) && next == pos + encode_frames_from(frames, from).len() && frames_alike_from(
            ws,
            frames,
            from,
        ) && encode_frames(ws, ws.len()) == encode_frames_from(frames, from),
    decreases frames.len() - from,
{
    if from < frames.len() {
        let x = frames[from as int];
        lemma_stands_split(s, pos, end, encode_frame(x), encode_frames_from(frames, from + 1));
        lemma_frame(x, s, pos, end);
        let (w, p) = parse_stack_frame(s, pos, end).unwrap();
        lemma_frames(frames, from + 1, s, p, end);
        let (ws, q) = parse_items::<StackFrame>(s, p, end, (frames.len() - from - 1) as nat).unwrap();
        lemma_encode_frames_front(w, ws, ws.len());
        let all = seq![w] + ws;
        assert forall|k: int| 0 <= k < all.len() implies (#[trigger] all[k]).funcidx
            == frames[from + k].funcidx && all[k].codeoffset == frames[from + k].codeoffset by {
            if k > 0 {
                assert(all[k] == ws[k - 1]);
            }
        }
    } else {
        assert(encode_frames(Seq::<StackFrameV>::empty(), 0) =~= encode_frames_from(frames, from));
    }
}

/// Whether the encoding of a custom section is read back: a section of
/// unknown kind has a name that the decoder does not know, and a `name`
/// section holds what `names_canonical` says.
pub open spec fn custom_canonical(c: CustomSectionV) -> bool {
    match c {
        CustomSectionV::Unknown(name, _) => free_name(name),
        CustomSectionV::Name(names) => names_canonical(names),
        _ => true,
    }
}

/// Whether `w` is what the decoder makes of the contents `v` of a custom
/// section as they are written: the same contents, in what is written of
/// them. Of the names those of the functions are written, of a frame the
/// function and the place in its code; a build id is read as a section of a
/// name that the decoder does not know.
pub open spec fn custom_alike(w: CustomSectionV, v: CustomSectionV) -> bool {
    match (w, v) {
        (CustomSectionV::Unknown(n, x), CustomSectionV::Unknown(m, y)) => n == m && x == y,
        (CustomSectionV::Unknown(n, x), CustomSectionV::BuildId(id)) => n == "build_id"@ && x
            == encode_byte_vec(id),
        (CustomSectionV::Name(a), CustomSectionV::Name(b)) => a.func_names == b.func_names,
        (CustomSectionV::CoredumpCore(a), CustomSectionV::CoredumpCore(b)) => a == b,
        (
            CustomSectionV::CoredumpCoreStack(a),
            CustomSectionV::CoredumpCoreStack(b),
        ) => a.thread_info == b.thread_info && frames_alike_from(a.frames, b.frames, 0),
        _ => false,
    }
}

/// The contents of a custom section are read where their encoding stands
/// and ends, as the same contents with the same encoding.
pub proof fn lemma_custom(c: CustomSectionV, s: Seq<u8>, pos: int, end: int)
    requires
        custom_canonical(c),
        stands(s, pos, end, encode_custom(c)),
        end == pos + encode_custom(c).len(),
        encode_custom(c).len() < 0x1_0000_0000,
    ensures
        parse_custom(s, pos, end) matches Some(w) && custom_canonical(w) && custom_alike(w, c)
            && encode_custom(w) == encode_custom(c),
{
    lemma_section_names();
    match c {
        CustomSectionV::Unknown(name, bytes) => {
            lemma_stands_split(s, pos, end, encode_name(name), bytes);
            lemma_name(s, pos, end, name);
        },
        CustomSectionV::Name(names) => {
            let a = encode_name("name"@);
            lemma_stands_split(s, pos, end, a, encode_debug_names(names));
            lemma_name(s, pos, end, "name"@);
            lemma_debug_names(names, s, pos + a.len(), end);
        },
        CustomSectionV::BuildId(id) => {
            let a = encode_name("build_id"@);
            lemma_stands_split(s, pos, end, a, encode_byte_vec(id));
            lemma_name(s, pos, end, "build_id"@);
        },
        CustomSectionV::CoredumpCore(info) => {
            let a = encode_name("core"@);
            let b = encode_process_info(info);
            lemma_stands_split(s, pos, end, a, b);
            lemma_name(s, pos, end, "core"@);
            let p = pos + a.len();
            lemma_stands_split(s, p, end, seq![0x0u8], encode_string(info.executable_name));
            lemma_u8(s, p, end, 0);
            assert(encode_string(info.executable_name) == encode_name(info.executable_name));
            lemma_name(s, p + 1, end, info.executable_name);
        },
        CustomSectionV::CoredumpCoreStack(stack) => {
            let a = encode_name("corestack"@);
            let b = encode_core_stack(stack);
            lemma_stands_split(s, pos, end, a, b);
            lemma_name(s, pos, end, "corestack"@);
            let p = pos + a.len();
            let name = encode_string(stack.thread_info.thread_name);
            let count = unsigned_leb128(stack.frames.len());
            let frames = encode_frames(stack.frames, stack.frames.len());
            assert(b =~= seq![0x0u8] + name + count + frames);
            lemma_stands_split(s, p, end, seq![0x0u8] + name + count, frames);
            lemma_stands_split(s, p, end, seq![0x0u8] + name, count);
            lemma_stands_split(s, p, end, seq![0x0u8], name);
            lemma_u8(s, p, end, 0);
            assert(name == encode_name(stack.thread_info.thread_name));
            lemma_name(s, p + 1, end, stack.thread_info.thread_name);
            lemma_frames_len(stack.frames, stack.frames.len());
            lemma_leb128(s, p + 1 + name.len(), end, stack.frames.len());
            lemma_encode_frames_from(stack.frames, 0);
            assert(encode_frames(stack.frames, 0) + encode_frames_from(stack.frames, 0)
                =~= encode_frames_from(stack.frames, 0));
            lemma_frames(stack.frames, 0, s, p + 1 + name.len() + count.len(), end);
        },
    }
}

/// Frames take at least a byte each.
pub proof fn lemma_frames_len(frames: Seq<StackFrameV>, n: nat)
    requires
        n <= frames.len(),
    ensures
        n <= encode_frames(frames, n).len(),
    decreases n,
{
    if n > 0 {
        lemma_frames_len(frames, (n - 1) as nat);
    }
}

/// Whether the encoding of a section is read back: what it holds is; the
/// id of a section of unknown kind is none of a standard section; where it
/// is the id of the custom sections, its bytes are none that the decoder
/// reads as one.
pub open spec fn section_canonical(v: SectionV) -> bool {
    match v {
        SectionV::Custom(_, c) => custom_canonical(c),
        SectionV::Global(_, items) => all_canonical::<Global>(items),
        SectionV::Element(_, items) => all_canonical::<Element>(items),
        SectionV::Code(_, items) => all_canonical::<Code>(items.value),
        SectionV::Data(_, items) => all_canonical::<DataSegment>(items),
        SectionV::Unknown(id, _, bytes) => !(1 <= id <= 7) && !(9 <= id <= 11) && (id == 0
            ==> parse_custom(bytes, 0, bytes.len() as int) is None),
        _ => true,
    }
}

/// A section is read where its encoding stands, as a section with the same
/// encoding.
pub proof fn lemma_section(v: SectionV, s: Seq<u8>, pos: int, end: int)
    requires
        section_canonical(v),
        section_encodable(v),
        stands(s, pos, end, encode_section(v)),
        encode_section(v).len() < 0x1_0000_0000,
    ensures
        encode_section(v).len() >= 1,
        parse_section(s, pos, end) matches Some((w, next)) && next == pos + encode_section(v).len()
            && section_encodable(w) && section_alike(w, v) && encode_section(w) == encode_section(
            v,
        ),
{
    reveal(parse_section_content);
    match v {
        SectionV::Unknown(id, _, bytes) => {
            let len = unsigned_leb128(bytes.len());
            assert(encode_section(v) =~= seq![id] + len + bytes);
            lemma_stands_split(s, pos, end, seq![id] + len, bytes);
            lemma_stands_split(s, pos, end, seq![id], len);
            lemma_u8(s, pos, end, id);
            lemma_leb128(s, pos + 1, end, bytes.len());
            lemma_bytes(s, pos + 1 + len.len(), end, bytes);
        },
        _ => {
            let id = section_id(v);
            let content = encode_section_content(v);
            let len = unsigned_leb128(content.len());
            assert(encode_section(v) =~= seq![id] + len + content);
            lemma_stands_split(s, pos, end, seq![id] + len, content);
            lemma_stands_split(s, pos, end, seq![id], len);
            lemma_u8(s, pos, end, id);
            lemma_leb128(s, pos + 1, end, content.len());
            let q = pos + 1 + len.len();
            let r = q + content.len();
            lemma_bytes(s, q, end, content);
            assert(stands(s, q, r, content));
            let size = Value {
                value: content.len() as u32,
                start_offset: (pos + 1) as usize,
                end_offset: q as usize,
            };
            lemma_section_content(size, v, s, q, r);
        },
    }
}

/// Whether `w` is what the decoder makes of the section `v` as it is
/// written: a section of the same kind that holds the same, one for one,
/// but for places and sizes.
pub open spec fn section_alike(w: SectionV, v: SectionV) -> bool {
    match (w, v) {
        (SectionV::Custom(_, a), SectionV::Custom(_, b)) => custom_alike(a, b),
        (SectionV::Type(_, a), SectionV::Type(_, b)) => all_alike::<Type>(a, b),
        (SectionV::Import(_, a), SectionV::Import(_, b)) => all_alike::<Import>(a, b),
        (SectionV::Func(_, a), SectionV::Func(_, b)) => all_alike::<u32>(a, b),
        (SectionV::Table(_, a), SectionV::Table(_, b)) => all_alike::<Table>(a, b),
        (SectionV::Memory(_, a), SectionV::Memory(_, b)) => all_alike::<Memory>(a, b),
        (SectionV::Global(_, a), SectionV::Global(_, b)) => all_alike::<Global>(a, b),
        (SectionV::Export(_, a), SectionV::Export(_, b)) => all_alike::<Export>(a, b),
        (SectionV::Element(_, a), SectionV::Element(_, b)) => all_alike::<Element>(a, b),
        (SectionV::Code(_, a), SectionV::Code(_, b)) => all_alike::<Code>(a.value, b.value),
        (SectionV::Data(_, a), SectionV::Data(_, b)) => all_alike::<DataSegment>(a, b),
        (SectionV::Unknown(i, _, x), SectionV::Unknown(j, _, y)) => i == j && x == y,
        _ => false,
    }
}

/// What is read as the contents of a section: the same contents but for
/// places and sizes, with the same encoding, in which every instruction has
/// an encoding.
pub open spec fn content_reads_back(v: SectionV, w: Option<SectionV>) -> bool {
    w matches Some(w) && section_encodable(w) && section_id(w) == section_id(v) && !(w is Unknown)
        && section_alike(w, v) && encode_section_content(w) == encode_section_content(v)
}

/// The items of a section are read where their encoding stands and ends.
pub proof fn lemma_content_items<T: Roundtrip>(items: Seq<T::V>, s: Seq<u8>, from: int, to: int)
    requires
        all_canonical::<T>(items),
        all_encodable::<T>(items),
        stands(s, from, to, encode_vec::<T>(items)),
        encode_vec::<T>(items).len() < 0x1_0000_0000,
    ensures
        parse_vec::<T>(s, from, to) matches Some((ws, _)) && all_encodable::<T>(ws)
            && all_alike::<T>(ws, items) && encode_vec::<T>(ws) == encode_vec::<T>(items),
{
    lemma_vec::<T>(items, s, from, to);
}

/// The contents of a custom section are read where their encoding stands
/// and ends.
pub proof fn lemma_content_custom(
    size: Value<u32>,
    v: SectionV,
    s: Seq<u8>,
    from: int,
    to: int,
)
    requires
        v is Custom,
        section_canonical(v),
        stands(s, from, to, encode_section_content(v)),
        to == from + encode_section_content(v).len(),
        encode_section_content(v).len() < 0x1_0000_0000,
    ensures
        content_reads_back(v, parse_section_content(s, 0, size, from, to)),
{
    reveal(parse_section_content);
    match v {
        SectionV::Custom(_, c) => {
            let content = s.subrange(from, to);
            assert(content =~= encode_custom(c));
            assert(content.subrange(0, content.len() as int) =~= content);
            lemma_custom(c, content, 0, to - from);
        },
        _ => {},
    }
}

/// The bodies of a code section are read where their encoding stands and
/// ends.
pub proof fn lemma_content_code(size: Value<u32>, v: SectionV, s: Seq<u8>, from: int, to: int)
    requires
        v is Code,
        section_canonical(v),
        section_encodable(v),
        stands(s, from, to, encode_section_content(v)),
        to == from + encode_section_content(v).len(),
        encode_section_content(v).len() < 0x1_0000_0000,
    ensures
        content_reads_back(v, parse_section_content(s, 10, size, from, to)),
{
    reveal(parse_section_content);
    match v {
        SectionV::Code(_, items) => {
            lemma_content_items::<Code>(items.value, s, from, to);
        },
        _ => {},
    }
}

/// The contents of a section of kind `Type` are read where their encoding
/// stands and ends.
pub proof fn lemma_content_type(size: Value<u32>, v: SectionV, s: Seq<u8>, from: int, to: int)
    requires
        v is Type,
        section_canonical(v),
        section_encodable(v),
        stands(s, from, to, encode_section_content(v)),
        to == from + encode_section_content(v).len(),
        encode_section_content(v).len() < 0x1_0000_0000,
    ensures
        content_reads_back(v, parse_section_content(s, 1, size, from, to)),
{
    reveal(parse_section_content);
    match v {
        SectionV::Type(_, items) => {
            assert(all_canonical::<Type>(items));
            assert(all_encodable::<Type>(items));
            lemma_content_items::<Type>(items, s, from, to);
        },
        _ => {},
    }
}

/// The contents of a section of kind `Import` are read where their encoding
/// stands and ends.
pub proof fn lemma_content_import(size: Value<u32>, v: SectionV, s: Seq<u8>, from: int, to: int)
    requires
        v is Import,
        section_canonical(v),
        section_encodable(v),
        stands(s, from, to, encode_section_content(v)),
        to == from + encode_section_content(v).len(),
        encode_section_content(v).len() < 0x1_0000_0000,
    ensures
        content_reads_back(v, parse_section_content(s, 2, size, from, to)),
{
    reveal(parse_section_content);
    match v {
        SectionV::Import(_, items) => {
            assert(all_canonical::<Import>(items));
            assert(all_encodable::<Import>(items));
            lemma_content_items::<Import>(items, s, from, to);
        },
        _ => {},
    }
}

/// The contents of a section of kind `Func` are read where their encoding
/// stands and ends.
pub proof fn lemma_content_func(size: Value<u32>, v: SectionV, s: Seq<u8>, from: int, to: int)
    requires
        v is Func,
        section_canonical(v),
        section_encodable(v),
        stands(s, from, to, encode_section_content(v)),
        to == from + encode_section_content(v).len(),
        encode_section_content(v).len() < 0x1_0000_0000,
    ensures
        content_reads_back(v, parse_section_content(s, 3, size, from, to)),
{
    reveal(parse_section_content);
    match v {
        SectionV::Func(_, items) => {
            lemma_indices(items);
            lemma_content_items::<u32>(items, s, from, to);
        },
        _ => {},
    }
}

/// The contents of a section of kind `Table` are read where their encoding
/// stands and ends.
pub proof fn lemma_content_table(size: Value<u32>, v: SectionV, s: Seq<u8>, from: int, to: int)
    requires
        v is Table,
        section_canonical(v),
        section_encodable(v),
        stands(s, from, to, encode_section_content(v)),
        to == from + encode_section_content(v).len(),
        encode_section_content(v).len() < 0x1_0000_0000,
    ensures
        content_reads_back(v, parse_section_content(s, 4, size, from, to)),
{
    reveal(parse_section_content);
    match v {
        SectionV::Table(_, items) => {
            assert(all_canonical::<Table>(items));
            assert(all_encodable::<Table>(items));
            lemma_content_items::<Table>(items, s, from, to);
        },
        _ => {},
    }
}

/// The contents of a section of kind `Memory` are read where their encoding
/// stands and ends.
pub proof fn lemma_content_memory(size: Value<u32>, v: SectionV, s: Seq<u8>, from: int, to: int)
    requires
        v is Memory,
        section_canonical(v),
        section_encodable(v),
        stands(s, from, to, encode_section_content(v)),
        to == from + encode_section_content(v).len(),
        encode_section_content(v).len() < 0x1_0000_0000,
    ensures
        content_reads_back(v, parse_section_content(s, 5, size, from, to)),
{
    reveal(parse_section_content);
    match v {
        SectionV::Memory(_, items) => {
            assert(all_canonical::<Memory>(items));
            assert(all_encodable::<Memory>(items));
            lemma_content_items::<Memory>(items, s, from, to);
        },
        _ => {},
    }
}

/// The contents of a section of kind `Global` are read where their encoding
/// stands and ends.
pub proof fn lemma_content_global(size: Value<u32>, v: SectionV, s: Seq<u8>, from: int, to: int)
    requires
        v is Global,
        section_canonical(v),
        section_encodable(v),
        stands(s, from, to, encode_section_content(v)),
        to == from + encode_section_content(v).len(),
        encode_section_content(v).len() < 0x1_0000_0000,
    ensures
        content_reads_back(v, parse_section_content(s, 6, size, from, to)),
{
    reveal(parse_section_content);
    match v {
        SectionV::Global(_, items) => {
            lemma_content_items::<Global>(items, s, from, to);
        },
        _ => {},
    }
}

/// The contents of a section of kind `Export` are read where their encoding
/// stands and ends.
pub proof fn lemma_content_export(size: Value<u32>, v: SectionV, s: Seq<u8>, from: int, to: int)
    requires
        v is Export,
        section_canonical(v),
        section_encodable(v),
        stands(s, from, to, encode_section_content(v)),
        to == from + encode_section_content(v).len(),
        encode_section_content(v).len() < 0x1_0000_0000,
    ensures
        content_reads_back(v, parse_section_content(s, 7, size, from, to)),
{
    reveal(parse_section_content);
    match v {
        SectionV::Export(_, items) => {
            assert(all_canonical::<Export>(items));
            assert(all_encodable::<Export>(items));
            lemma_content_items::<Export>(items, s, from, to);
        },
        _ => {},
    }
}

/// The contents of a section of kind `Element` are read where their encoding
/// stands and ends.
pub proof fn lemma_content_element(size: Value<u32>, v: SectionV, s: Seq<u8>, from: int, to: int)
    requires
        v is Element,
        section_canonical(v),
        section_encodable(v),
        stands(s, from, to, encode_section_content(v)),
        to == from + encode_section_content(v).len(),
        encode_section_content(v).len() < 0x1_0000_0000,
    ensures
        content_reads_back(v, parse_section_content(s, 9, size, from, to)),
{
    reveal(parse_section_content);
    match v {
        SectionV::Element(_, items) => {
            lemma_content_items::<Element>(items, s, from, to);
        },
        _ => {},
    }
}

/// The contents of a section of kind `Data` are read where their encoding
/// stands and ends.
pub proof fn lemma_content_data(size: Value<u32>, v: SectionV, s: Seq<u8>, from: int, to: int)
    requires
        v is Data,
        section_canonical(v),
        section_encodable(v),
        stands(s, from, to, encode_section_content(v)),
        to == from + encode_section_content(v).len(),
        encode_section_content(v).len() < 0x1_0000_0000,
    ensures
        content_reads_back(v, parse_section_content(s, 11, size, from, to)),
{
    reveal(parse_section_content);
    match v {
        SectionV::Data(_, items) => {
            lemma_content_items::<DataSegment>(items, s, from, to);
        },
        _ => {},
    }
}

/// The contents of a section are read where their encoding stands and
/// ends, as contents with the same encoding.
pub proof fn lemma_section_content(
    size: Value<u32>,
    v: SectionV,
    s: Seq<u8>,
    from: int,
    to: int,
)
    requires
        !(v is Unknown),
        section_canonical(v),
        section_encodable(v),
        stands(s, from, to, encode_section_content(v)),
        to == from + encode_section_content(v).len(),
        encode_section_content(v).len() < 0x1_0000_0000,
    ensures
        content_reads_back(v, parse_section_content(s, section_id(v), size, from, to)),
{
    match v {
        SectionV::Custom(..) => lemma_content_custom(size, v, s, from, to),
        SectionV::Type(..) => lemma_content_type(size, v, s, from, to),
        SectionV::Import(..) => lemma_content_import(size, v, s, from, to),
        SectionV::Func(..) => lemma_content_func(size, v, s, from, to),
        SectionV::Table(..) => lemma_content_table(size, v, s, from, to),
        SectionV::Memory(..) => lemma_content_memory(size, v, s, from, to),
        SectionV::Global(..) => lemma_content_global(size, v, s, from, to),
        SectionV::Export(..) => lemma_content_export(size, v, s, from, to),
        SectionV::Element(..) => lemma_content_element(size, v, s, from, to),
        SectionV::Code(..) => lemma_content_code(size, v, s, from, to),
        SectionV::Data(..) => lemma_content_data(size, v, s, from, to),
        SectionV::Unknown(..) => {},
    }
}

/// The encodings of the sections from `from` on, one after the other.
pub open spec fn encode_sections_from(sections: Seq<Value<SectionV>>, from: nat) -> Seq<u8>
    decreases sections.len() - from,
{
    if from >= sections.len() {
        Seq::empty()
    } else {
        encode_section(sections[from as int].value) + encode_sections_from(sections, from + 1)
    }
}

/// The encoding of sections is that of the first `n`, then that of the
/// others.
pub proof fn lemma_encode_sections_from(sections: Seq<Value<SectionV>>, n: nat)
    requires
        n <= sections.len(),
    ensures
        encode_sections(sections, sections.len()) == encode_sections(sections, n)
            + encode_sections_from(sections, n),
    decreases sections.len() - n,
{
    if n < sections.len() {
        lemma_encode_sections_from(sections, n + 1);
        assert(encode_sections(sections, n + 1) + encode_sections_from(sections, n + 1)
            =~= encode_sections(sections, n) + encode_sections_from(sections, n));
    } else {
        assert(encode_sections(sections, n) + encode_sections_from(sections, n)
            =~= encode_sections(sections, n));
    }
}

/// The encoding of a section followed by others is its encoding, then
/// theirs.
pub proof fn lemma_encode_sections_front(x: Value<SectionV>, xs: Seq<Value<SectionV>>, n: nat)
    requires
        n <= xs.len(),
    ensures
        encode_sections(seq![x] + xs, n + 1) == encode_section(x.value) + encode_sections(xs, n),
    decreases n,
{
    let all = seq![x] + xs;
    if n == 0 {
        assert(all[0] == x);
        assert(encode_sections(all, 0) =~= Seq::<u8>::empty());
        assert(encode_sections(all, 1) =~= encode_section(x.value));
        assert(encode_section(x.value) + encode_sections(xs, 0) =~= encode_section(x.value));
    } else {
        lemma_encode_sections_front(x, xs, (n - 1) as nat);
        assert(all[n as int] == xs[n - 1]);
        assert(encode_sections(all, n + 1) =~= encode_section(x.value) + encode_sections(xs, n));
    }
}

/// Whether each section of a module is read back.
pub open spec fn module_canonical(m: ModuleV) -> bool {
    forall|k: int| 0 <= k < m.sections.len() ==> section_canonical((#[trigger] m.sections[k]).value)
}

/// Whether `ws` are what the decoder makes of the sections of `sections`
/// from `from` on, one for one.
pub open spec fn sections_alike_from(
    ws: Seq<Value<SectionV>>,
    sections: Seq<Value<SectionV>>,
    from: nat,
) -> bool {
    ws.len() + from == sections.len() && forall|k: int|
        0 <= k < ws.len() ==> section_alike((#[trigger] ws[k]).value, sections[from + k].value)
}

/// Whether `w` is what the decoder makes of the module `m` as it is
/// written: the same sections in the same order, each holding the same but
/// for places and sizes.
pub open spec fn module_alike(w: ModuleV, m: ModuleV) -> bool {
    sections_alike_from(w.sections, m.sections, 0)
}

/// Sections are read where their encodings stand and end.
pub proof fn lemma_sections(m: ModuleV, from: nat, s: Seq<u8>, pos: int)
    requires
        module_canonical(m),
        module_encodable(m),
        from <= m.sections.len(),
        stands(s, pos, s.len() as int, encode_sections_from(m.sections, from)),
        s.len() == pos + encode_sections_from(m.sections, from).len(),
        s.len() < 0x1_0000_0000,
    ensures
        parse_sections(s, pos, s.len() as int) matches Some(ws) && module_encodable(
            ModuleV { sections: ws },
        ) && sections_alike_from(ws, m.sections, from) && encode_sections(ws, ws.len())
            == encode_sections_from(m.sections, from),
    decreases m.sections.len() - from,
{
    let end = s.len() as int;
    if from < m.sections.len() {
        let x = m.sections[from as int].value;
        let rest = encode_sections_from(m.sections, from + 1);
        lemma_stands_split(s, pos, end, encode_section(x), rest);
        lemma_section(x, s, pos, end);
        let (w, p) = parse_section(s, pos, end).unwrap();
        lemma_sections(m, from + 1, s, p);
        let ws = parse_sections(s, p, end).unwrap();
        let node = Value { value: w, start_offset: pos as usize, end_offset: p as usize };
        lemma_encode_sections_front(node, ws, ws.len());
        let all = seq![node] + ws;
        let found = ModuleV { sections: ws };
        assert forall|k: int| 0 <= k < all.len() implies section_encodable(
            (#[trigger] all[k]).value,
        ) && section_alike(all[k].value, m.sections[from + k].value) by {
            if k > 0 {
                assert(all[k] == found.sections[k - 1]);
                assert(all[k] == ws[k - 1]);
            } else {
                assert(all[0] == node);
            }
        }
    } else {
        assert(encode_sections(Seq::<Value<SectionV>>::empty(), 0) =~= encode_sections_from(
            m.sections,
            from,
        ));
    }
}

/// The instruction that an opcode without immediates stands for has an
/// encoding.
pub proof fn lemma_plain_encodable(op: u8)
    ensures
        plain_instr(op) matches Some(x) ==> leaf_encodable(x),
{
}

/// The instruction that an opcode with one index stands for has an
/// encoding.
pub proof fn lemma_index_encodable(op: u8, v: u32)
    ensures
        index_instr(op, v) matches Some(x) ==> leaf_encodable(x),
{
}

/// The instruction that is read has an encoding, which is read back.
pub proof fn lemma_parsed_instr(s: Seq<u8>, pos: int, end: int)
    ensures
        parse_instr(s, pos, end) matches Some((w, _)) ==> instr_encodable(w.value)
            && instr_canonical(w.value),
    decreases end - pos, 0int,
{
    match parse_u8(s, pos, end) {
        Some((op, p)) => {
            if op == 0x02 || op == 0x03 || op == 0x04 {
                match parse_blocktype(s, p, end) {
                    Some((t, q)) => {
                        if !(q <= pos || q > end) {
                            lemma_parsed_expr(s, q, end);
                        }
                    },
                    None => {},
                }
            } else {
                lemma_plain_encodable(op);
                if plain_instr(op) is Some {
                } else if index_instr(op, 0) is Some {
                    match parse_leb128(s, p, end) {
                        Some((x, _)) => lemma_index_encodable(op, x),
                        None => {},
                    }
                } else if 0x28 <= op <= 0x3e {
                    match parse_leb128(s, p, end) {
                        Some((a, q)) => match parse_leb128(s, q, end) {
                            Some((b, _)) => lemma_memory_instr(
                                op,
                                Value { value: a, start_offset: p as usize, end_offset: q as usize },
                                b,
                            ),
                            None => {},
                        },
                        None => {},
                    }
                } else {
                }
            }
        },
        None => {},
    }
}

/// Whether instructions are read back as an expression does not change
/// with an instruction put before them all.
pub proof fn lemma_body_canonical_front(x: Value<InstrV>, xs: Seq<Value<InstrV>>, from: nat)
    requires
        from <= xs.len(),
    ensures
        body_canonical(seq![x] + xs, from + 1) == body_canonical(xs, from),
    decreases xs.len() - from,
{
    let all = seq![x] + xs;
    if from < xs.len() {
        assert(all[from as int + 1] == xs[from as int]);
        lemma_body_canonical_front(x, xs, from + 1);
    }
}

/// The instructions that are read have encodings, which are read back as
/// an expression.
pub proof fn lemma_parsed_instrs(s: Seq<u8>, pos: int, end: int)
    ensures
        parse_instrs(s, pos, end) matches Some((ws, _)) ==> nodes_encodable(ws, ws.len())
            && body_canonical(ws, 0),
    decreases end - pos, 1int,
{
    lemma_parsed_instr(s, pos, end);
    match parse_instr(s, pos, end) {
        Some((node, p)) => {
            if node.value == InstrV::Leaf(Instr::end) {
                lemma_encode_nodes_front(node, Seq::empty(), 0);
                assert(seq![node] + Seq::<Value<InstrV>>::empty() =~= seq![node]);
                assert(seq![node][0] == node);
            } else if !(p <= pos || p > end) {
                lemma_parsed_instrs(s, p, end);
                match parse_instrs(s, p, end) {
                    Some((rest, _)) => {
                        lemma_encode_nodes_front(node, rest, rest.len());
                        lemma_body_canonical_front(node, rest, 0);
                        assert((seq![node] + rest)[0] == node);
                    },
                    None => {},
                }
            }
        },
        None => {},
    }
}

/// The expression that is read has an encoding, which is read back.
pub proof fn lemma_parsed_expr(s: Seq<u8>, pos: int, end: int)
    ensures
        parse_expr(s, pos, end) matches Some((w, _)) ==> expr_encodable(w) && body_canonical(
            w.value,
            0,
        ),
    decreases end - pos, 2int,
{
    lemma_parsed_instrs(s, pos, end);
}

/// The names that are read are finite in number: no more than `acc`
/// holds and `n` pairs give.
pub proof fn lemma_parsed_name_pairs(
    s: Seq<u8>,
    pos: int,
    end: int,
    n: nat,
    acc: Map<u32, Seq<char>>,
)
    requires
        acc.dom().finite(),
    ensures
        parse_name_pairs(s, pos, end, n, acc) matches Some((m, _)) ==> m.dom().finite() && m.len()
            <= acc.len() + n,
    decreases n,
{
    if n > 0 {
        match parse_leb128(s, pos, end) {
            Some((funcidx, p)) => match parse_name(s, p, end) {
                Some((name, q)) => {
                    let next = acc.insert(funcidx, name);
                    assert(next.dom() =~= acc.dom().insert(funcidx));
                    lemma_parsed_name_pairs(s, q, end, (n - 1) as nat, next);
                },
                None => {},
            },
            None => {},
        }
    }
}

/// The function names that are read from the subsections of a `name`
/// section are fewer than 2^32.
pub proof fn lemma_parsed_subsections(
    s: Seq<u8>,
    pos: int,
    end: int,
    names: Option<Map<u32, Seq<char>>>,
)
    requires
        names matches Some(m) ==> m.dom().finite() && m.len() < 0x1_0000_0000,
    ensures
        parse_name_subsections(s, pos, end, names) matches Some(Some(m)) ==> m.dom().finite()
            && m.len() < 0x1_0000_0000,
    decreases end - pos,
{
    if pos < end {
        match parse_u8(s, pos, end) {
            Some((id, p)) => match parse_leb128(s, p, end) {
                Some((size, q)) => if id == 1 {
                    match parse_leb128(s, q, end) {
                        Some((n, r)) => {
                            assert(Map::<u32, Seq<char>>::empty().len() == 0);
                            lemma_parsed_name_pairs(s, r, end, n as nat, Map::empty());
                        },
                        None => {},
                    }
                    match parse_namemap(s, q, end) {
                        Some((m, r)) => if !(r <= pos || r > end) {
                            lemma_parsed_subsections(s, r, end, Some(m));
                        },
                        None => {},
                    }
                } else {
                    match parse_bytes(s, q, end, size as int) {
                        Some((_, r)) => if r > pos {
                            lemma_parsed_subsections(s, r, end, names);
                        },
                        None => {},
                    }
                },
                None => {},
            },
            None => {},
        }
    }
}

/// The contents of a custom section that are read are read back.
pub proof fn lemma_parsed_custom(s: Seq<u8>, pos: int, end: int)
    ensures
        parse_custom(s, pos, end) matches Some(w) ==> custom_canonical(w),
{
    match parse_name(s, pos, end) {
        Some((name, p)) => {
            if name == "name"@ {
                lemma_parsed_subsections(s, p, end, None);
            }
        },
        None => {},
    }
}

/// What is read as a custom section, or kept as a section of unknown kind
/// in its place, is read back.
pub proof fn lemma_parsed_content_custom(s: Seq<u8>, size: Value<u32>, from: int, to: int)
    requires
        0 <= from <= to <= s.len(),
    ensures
        parse_section_content(s, 0, size, from, to) matches Some(w) && section_encodable(w)
            && section_canonical(w),
{
    reveal(parse_section_content);
    let bytes = s.subrange(from, to);
    assert(bytes.len() == to - from);
    lemma_parsed_custom(bytes, 0, to - from);
}

/// The items of a section of a standard kind that are read have encodings,
/// which are read back.
pub proof fn lemma_parsed_content_items(s: Seq<u8>, id: u8, size: Value<u32>, from: int, to: int)
    requires
        id == 6 || id == 9 || id == 10 || id == 11,
    ensures
        parse_section_content(s, id, size, from, to) matches Some(w) ==> section_encodable(w)
            && section_canonical(w),
{
    reveal(parse_section_content);
    if id == 6 {
        lemma_parsed_vec::<Global>(s, from, to);
    } else if id == 9 {
        lemma_parsed_vec::<Element>(s, from, to);
    } else if id == 10 {
        lemma_parsed_vec::<Code>(s, from, to);
    } else {
        lemma_parsed_vec::<DataSegment>(s, from, to);
    }
}

/// A section without instructions that is read is read back.
pub proof fn lemma_parsed_content_plain(s: Seq<u8>, id: u8, size: Value<u32>, from: int, to: int)
    requires
        id != 0 && id != 6 && id != 9 && id != 10 && id != 11,
    ensures
        parse_section_content(s, id, size, from, to) matches Some(w) ==> section_encodable(w)
            && section_canonical(w),
{
    reveal(parse_section_content);
}

/// The contents of a section that are read have encodings, which are read
/// back.
pub proof fn lemma_parsed_content(s: Seq<u8>, id: u8, size: Value<u32>, from: int, to: int)
    requires
        0 <= from <= to <= s.len(),
    ensures
        parse_section_content(s, id, size, from, to) matches Some(w) ==> section_encodable(w)
            && section_canonical(w),
{
    if id == 0 {
        lemma_parsed_content_custom(s, size, from, to);
    } else if id == 6 || id == 9 || id == 10 || id == 11 {
        lemma_parsed_content_items(s, id, size, from, to);
    } else {
        lemma_parsed_content_plain(s, id, size, from, to);
    }
}

/// The section that is read has an encoding, which is read back.
pub proof fn lemma_parsed_section(s: Seq<u8>, pos: int, end: int)
    ensures
        parse_section(s, pos, end) matches Some((w, _)) ==> section_encodable(w)
            && section_canonical(w),
{
    match parse_u8(s, pos, end) {
        Some((id, p)) => match parse_leb128(s, p, end) {
            Some((size, q)) => match parse_bytes(s, q, end, size as int) {
                Some((_, r)) => {
                    lemma_parsed_content(
                        s,
                        id,
                        Value { value: size, start_offset: p as usize, end_offset: q as usize },
                        q,
                        r,
                    );
                },
                None => {},
            },
            None => {},
        },
        None => {},
    }
}

/// The sections that are read have encodings, which are read back.
pub proof fn lemma_parsed_sections(s: Seq<u8>, pos: int, end: int)
    ensures
        parse_sections(s, pos, end) matches Some(ws) ==> module_encodable(ModuleV { sections: ws })
            && module_canonical(ModuleV { sections: ws }),
    decreases end - pos,
{
    if pos < end {
        lemma_parsed_section(s, pos, end);
        match parse_section(s, pos, end) {
            Some((section, p)) => {
                if p > pos {
                    lemma_parsed_sections(s, p, end);
                    match parse_sections(s, p, end) {
                        Some(rest) => {
                            let node = Value {
                                value: section,
                                start_offset: pos as usize,
                                end_offset: p as usize,
                            };
                            let all = seq![node] + rest;
                            let found = ModuleV { sections: rest };
                            assert forall|k: int| 0 <= k < all.len() implies section_encodable(
                                (#[trigger] all[k]).value,
                            ) && section_canonical(all[k].value) by {
                                if k > 0 {
                                    assert(all[k] == found.sections[k - 1]);
                                }
                            }
                        },
                        None => {},
                    }
                }
            },
            None => {},
        }
    }
}

/// Every module that is decoded has an encoding, which is read back: the
/// encoder fails on none.
pub proof fn lemma_decoded_encodable(bytes: Seq<u8>)
    ensures
        decode_module(bytes) matches Ok(m) ==> module_encodable(m) && module_canonical(m),
{
    lemma_parsed_sections(bytes, 8, bytes.len() as int);
}

/// An instruction whose encoding is read back has an encoding.
pub proof fn lemma_instr_canonical(i: InstrV)
    requires
        instr_canonical(i),
    ensures
        instr_encodable(i),
    decreases i, 0nat,
{
    match i {
        InstrV::Block(_, body) => lemma_body_canonical(body.value, 0, body.value.len()),
        InstrV::Loop(_, body) => lemma_body_canonical(body.value, 0, body.value.len()),
        InstrV::If(_, body) => lemma_body_canonical(body.value, 0, body.value.len()),
        _ => {},
    }
}

/// Each instruction of an expression whose encoding is read back has an
/// encoding.
pub proof fn lemma_body_canonical(nodes: Seq<Value<InstrV>>, from: nat, n: nat)
    requires
        body_canonical(nodes, from),
        from <= n <= nodes.len(),
        nodes_encodable(nodes, from),
    ensures
        nodes_encodable(nodes, n),
    decreases nodes, 1nat, n - from,
{
    if from < n {
        let x = nodes[from as int].value;
        if from + 1 == nodes.len() {
            assert(x == InstrV::Leaf(Instr::end));
            assert(instr_encodable(x));
            assert(nodes_encodable(nodes, from + 1));
        } else {
            lemma_instr_canonical(x);
            assert(nodes_encodable(nodes, from + 1));
            lemma_body_canonical(nodes, from + 1, n);
        }
    }
}

/// A section whose encoding is read back has an encoding.
pub proof fn lemma_section_canonical(v: SectionV)
    requires
        section_canonical(v),
    ensures
        section_encodable(v),
{
    match v {
        SectionV::Global(_, items) => {
            assert forall|k: int| 0 <= k < items.len() implies Global::encodable(
                #[trigger] items[k],
            ) by {
                lemma_body_canonical(items[k].expr.value, 0, items[k].expr.value.len());
            }
        },
        SectionV::Element(_, items) => {
            assert forall|k: int| 0 <= k < items.len() implies Element::encodable(
                #[trigger] items[k],
            ) by {
                match items[k] {
                    ElementV::FuncActive(offset, _) => {
                        lemma_body_canonical(offset.value, 0, offset.value.len());
                    },
                }
            }
        },
        SectionV::Code(_, items) => {
            assert forall|k: int| 0 <= k < items.value.len() implies Code::encodable(
                #[trigger] items.value[k],
            ) by {
                lemma_body_canonical(
                    items.value[k].body.value,
                    0,
                    items.value[k].body.value.len(),
                );
            }
        },
        SectionV::Data(_, items) => {
            assert forall|k: int| 0 <= k < items.len() implies DataSegment::encodable(
                #[trigger] items[k],
            ) by {
                match items[k].offset {
                    Some(offset) => {
                        lemma_body_canonical(offset.value, 0, offset.value.len());
                    },
                    None => {},
                }
            }
        },
        _ => {},
    }
}

/// A module whose sections are read back has an encoding.
pub proof fn lemma_module_canonical(m: ModuleV)
    requires
        module_canonical(m),
    ensures
        module_encodable(m),
{
    assert forall|k: int| 0 <= k < m.sections.len() implies section_encodable(
        (#[trigger] m.sections[k]).value,
    ) by {
        lemma_section_canonical(m.sections[k].value);
    }
}

/// Decoding what was encoded gives the same module but for places and
/// sizes: where each section of `m` is read back and the encoding of `m` is
/// shorter than 2^32 bytes, the encoding of `m` decodes to a module that
/// holds the same and encodes to the same bytes.
pub proof fn lemma_encode_decode_encode(m: ModuleV)
    requires
        module_canonical(m),
        encode_module(m).len() < 0x1_0000_0000,
    ensures
        module_encodable(m),
        decode_module(encode_module(m)) matches Ok(w) && module_encodable(w) && module_alike(w, m)
            && encode_module(w) == encode_module(m),
{
    lemma_module_canonical(m);
    lemma_decode_encode(m);
}

/// The round trip of what was decoded: a module that the decoder gives has
/// an encoding, and where that encoding is shorter than 2^32 bytes, it
/// decodes to the same module but for places and sizes, which has the same
/// encoding. So to decode bytes that the encoder wrote for a decoded module,
/// and to encode what was decoded, gives those bytes again; and whatever
/// the bytes that a module was decoded from, to encode it and decode it
/// gives the same sections with the same contents.
pub proof fn lemma_round_trip(input: Seq<u8>)
    requires
        decode_module(input) matches Ok(m) && encode_module(m).len() < 0x1_0000_0000,
    ensures
        decode_module(input) matches Ok(m) && module_encodable(m) && (decode_module(
            encode_module(m),
        ) matches Ok(w) && module_encodable(w) && module_alike(w, m) && encode_module(w)
            == encode_module(m)),
{
    lemma_decoded_encodable(input);
    match decode_module(input) {
        Ok(m) => lemma_decode_encode(m),
        Err(_) => {},
    }
}

/// What the decoder makes of a section is a section of the same kind.
pub proof fn lemma_alike_kind(w: SectionV, v: SectionV)
    requires
        section_alike(w, v),
    ensures
        w.kind() == v.kind(),
{
}

/// What the decoder makes of sections has its last section of each kind
/// where they have theirs.
pub proof fn lemma_alike_last_of_kind(
    ws: Seq<Value<SectionV>>,
    sections: Seq<Value<SectionV>>,
    kind: SectionKind,
    n: nat,
)
    requires
        sections_alike_from(ws, sections, 0),
        n <= ws.len(),
    ensures
        last_of_kind(ws, kind, n) == last_of_kind(sections, kind, n),
    decreases n,
{
    if n > 0 {
        lemma_alike_kind(ws[n - 1].value, sections[n - 1].value);
        lemma_alike_last_of_kind(ws, sections, kind, (n - 1) as nat);
    }
}

/// Imports that are the same one for one, but for places, bring the same
/// functions and as many globals.
pub proof fn lemma_alike_imports(ws: Seq<ImportV>, imports: Seq<ImportV>, n: nat)
    requires
        all_alike::<Import>(ws, imports),
        n <= ws.len(),
    ensures
        func_import_types(ws, n) == func_import_types(imports, n),
        global_import_count(ws, n) == global_import_count(imports, n),
    decreases n,
{
    if n > 0 {
        lemma_alike_imports(ws, imports, (n - 1) as nat);
        assert(<Import as Roundtrip>::alike(ws[n - 1], imports[n - 1]));
    }
}

/// What the decoder makes of a module as it is written has the same index
/// spaces: the same types, the same imported functions and as many
/// imported globals, the same type for each function, the same exports, and
/// one for one the same bodies and globals but for places.
pub proof fn lemma_alike_index_spaces(w: ModuleV, m: ModuleV)
    requires
        module_alike(w, m),
    ensures
        w.types() == m.types(),
        w.imported_func_types() == m.imported_func_types(),
        w.global_import_count() == m.global_import_count(),
        w.funcs() == m.funcs(),
        w.func_types() == m.func_types(),
        w.exports() == m.exports(),
        all_alike::<Code>(w.codes(), m.codes()),
        all_alike::<Global>(w.globals(), m.globals()),
        forall|f: int| w.has_code(f) == m.has_code(f),
        forall|f: int| w.is_imported(f) == m.is_imported(f),
{
    let n = w.sections.len();
    lemma_alike_last_of_kind(w.sections, m.sections, SectionKind::Type, n);
    lemma_alike_last_of_kind(w.sections, m.sections, SectionKind::Import, n);
    lemma_alike_last_of_kind(w.sections, m.sections, SectionKind::Func, n);
    lemma_alike_last_of_kind(w.sections, m.sections, SectionKind::Export, n);
    lemma_alike_last_of_kind(w.sections, m.sections, SectionKind::Code, n);
    lemma_alike_last_of_kind(w.sections, m.sections, SectionKind::Global, n);
    lemma_last_of_kind(w.sections, SectionKind::Type, n);
    lemma_last_of_kind(w.sections, SectionKind::Import, n);
    lemma_last_of_kind(w.sections, SectionKind::Func, n);
    lemma_last_of_kind(w.sections, SectionKind::Export, n);
    lemma_last_of_kind(w.sections, SectionKind::Code, n);
    lemma_last_of_kind(w.sections, SectionKind::Global, n);
    match w.section(SectionKind::Type) {
        Some(k) => {
            assert(section_alike(w.sections[k].value, m.sections[k].value));
            assert forall|j: int| 0 <= j < w.types().len() implies w.types()[j] == m.types()[j] by {
                assert(<Type as Roundtrip>::alike(w.types()[j], m.types()[j]));
            }
            assert(w.types() =~= m.types());
        },
        None => {},
    }
    match w.section(SectionKind::Import) {
        Some(k) => {
            assert(section_alike(w.sections[k].value, m.sections[k].value));
            lemma_alike_imports(w.imports(), m.imports(), w.imports().len());
        },
        None => {},
    }
    match w.section(SectionKind::Func) {
        Some(k) => {
            assert(section_alike(w.sections[k].value, m.sections[k].value));
            lemma_same_indices(w.funcs(), m.funcs());
        },
        None => {},
    }
    match w.section(SectionKind::Export) {
        Some(k) => {
            assert(section_alike(w.sections[k].value, m.sections[k].value));
            assert forall|j: int| 0 <= j < w.exports().len() implies w.exports()[j]
                == m.exports()[j] by {
                assert(<Export as Roundtrip>::alike(w.exports()[j], m.exports()[j]));
            }
            assert(w.exports() =~= m.exports());
        },
        None => {},
    }
    match w.section(SectionKind::Code) {
        Some(k) => {
            assert(section_alike(w.sections[k].value, m.sections[k].value));
        },
        None => {},
    }
    match w.section(SectionKind::Global) {
        Some(k) => {
            assert(section_alike(w.sections[k].value, m.sections[k].value));
        },
        None => {},
    }
}

/// As `lemma_encode_decode_encode`, for a module of which it is known that
/// every instruction has an encoding.
pub proof fn lemma_decode_encode(m: ModuleV)
    requires
        module_canonical(m),
        module_encodable(m),
        encode_module(m).len() < 0x1_0000_0000,
    ensures
        decode_module(encode_module(m)) matches Ok(w) && module_encodable(w) && module_alike(w, m)
            && encode_module(w) == encode_module(m),
{
    let s = encode_module(m);
    let end = s.len() as int;
    let sections = encode_sections(m.sections, m.sections.len());
    assert(header() =~= magic() + version());
    assert(s =~= magic() + version() + sections);
    assert(s.subrange(0, 4) =~= magic());
    assert(s.subrange(4, 8) =~= version());
    assert(s.subrange(8, end) =~= sections);
    lemma_encode_sections_from(m.sections, 0);
    assert(encode_sections(m.sections, 0) + encode_sections_from(m.sections, 0)
        =~= encode_sections_from(m.sections, 0));
    lemma_sections(m, 0, s, 8);
}

} // verus!
