//! The encoder: from a `Module` to the bytes of its binary form.
//!
//! What each part of a module encodes to is a spec function from its model to
//! bytes. Sizes are never taken from the module: each is the length of what
//! was written.

use crate::ast::{
    BlockType, Code, CodeLocal, CodeV, CustomSection, CustomSectionV, DataSegment, DataSegmentMode,
    DataSegmentV, DebugNames, DebugNamesV, Element, ElementV, Export, ExportDescr, ExportV, ExprV,
    Global, GlobalType, GlobalV, Import, ImportType, ImportV, Instr, InstrV, Limits, Memory, Module,
    ModuleV, NumType, Reftype, Section, SectionV, Table, Type, TypeV, Value, ValueType,
    lemma_instr_view, lemma_plain_view, names_view,
};
use crate::coredump_encoder::{
    encode_core_stack, encode_coredump_process, encode_coredump_stack, encode_process_info,
};
use crate::opcodes::{opcode, opcode_of};
use crate::varint::{
    le_bytes, signed_leb128, unsigned_leb128, write_signed_leb128, write_unsigned_leb128,
};
use byteorder::{ByteOrder, LittleEndian};
use vstd::prelude::*;
use vstd::utf8::encode_utf8;

verus! {

/// Why a module has no encoding.
#[derive(Debug, Clone, Copy, PartialEq, Eq, Structural)]
pub enum EncodeError {
    /// A body holds an instruction that the encoder has no opcode for.
    UnsupportedInstruction,
}

/// Appends `bytes` to `buffer`.
pub fn write_bytes(buffer: &mut Vec<u8>, bytes: &[u8])
    ensures
        final(buffer)@ == old(buffer)@ + bytes@,
{
    let mut k: usize = 0;
    while k < bytes.len()
        invariant
            k <= bytes.len(),
            buffer@ == old(buffer)@ + bytes@.subrange(0, k as int),
        decreases bytes.len() - k,
    {
        buffer.push(bytes[k]);
        k += 1;
        assert(buffer@ =~= old(buffer)@ + bytes@.subrange(0, k as int));
    }
    assert(bytes@.subrange(0, k as int) =~= bytes@);
}

/// A name: the length of its UTF-8 form as LEB128, then that form.
pub open spec fn encode_name(name: Seq<char>) -> Seq<u8> {
    unsigned_leb128(encode_utf8(name).len()) + encode_utf8(name)
}

/// Writes a name: its length in bytes, then its bytes.
pub fn write_utf8(buffer: &mut Vec<u8>, v: &str)
    ensures
        final(buffer)@ == old(buffer)@ + encode_name(v@),
{
    let bytes = v.as_bytes();
    write_unsigned_leb128(buffer, bytes.len() as u64);
    write_bytes(buffer, bytes);
    assert(buffer@ =~= old(buffer)@ + encode_name(v@));
}

/// A byte vector: its length as LEB128, then the bytes.
pub open spec fn encode_byte_vec(bytes: Seq<u8>) -> Seq<u8> {
    unsigned_leb128(bytes.len()) + bytes
}

/// Writes a vector of bytes: their number, then the bytes.
pub fn write_byte_vec(buffer: &mut Vec<u8>, bytes: &Vec<u8>)
    ensures
        final(buffer)@ == old(buffer)@ + encode_byte_vec(bytes@),
{
    write_unsigned_leb128(buffer, bytes.len() as u64);
    write_bytes(buffer, bytes.as_slice());
    assert(buffer@ =~= old(buffer)@ + encode_byte_vec(bytes@));
}

/// Writes the number of items of `vec`.
pub fn write_vec_len<T>(buffer: &mut Vec<u8>, vec: &Vec<T>)
    ensures
        final(buffer)@ == old(buffer)@ + unsigned_leb128(vec@.len()),
{
    write_unsigned_leb128(buffer, vec.len() as u64);
}

/// `byteorder::LittleEndian::write_u32` on four bytes: the bytes of `n`, the
/// least significant first.
#[verifier::external_body]
fn le_bytes_u32(n: u32) -> (r: [u8; 4])
    ensures
        r@ == le_bytes(n as nat, 4),
{
    let mut b = [0; 4];
    LittleEndian::write_u32(&mut b, n);
    b
}

/// `byteorder::LittleEndian::write_u64` on eight bytes: the bytes of `n`, the
/// least significant first.
#[verifier::external_body]
fn le_bytes_u64(n: u64) -> (r: [u8; 8])
    ensures
        r@ == le_bytes(n as nat, 8),
{
    let mut b = [0; 8];
    LittleEndian::write_u64(&mut b, n);
    b
}

/// Writes the four bytes of `n`, the least significant first.
pub fn write_u32(buffer: &mut Vec<u8>, n: u32)
    ensures
        final(buffer)@ == old(buffer)@ + le_bytes(n as nat, 4),
{
    let b = le_bytes_u32(n);
    write_bytes(buffer, b.as_slice());
}

/// Writes the four bytes of a 32-bit floating-point number, given by its bits.
pub fn write_float_f32(buffer: &mut Vec<u8>, bits: u32)
    ensures
        final(buffer)@ == old(buffer)@ + le_bytes(bits as nat, 4),
{
    write_u32(buffer, bits);
}

/// Writes the eight bytes of a 64-bit floating-point number, given by its
/// bits.
pub fn write_float_f64(buffer: &mut Vec<u8>, bits: u64)
    ensures
        final(buffer)@ == old(buffer)@ + le_bytes(bits as nat, 8),
{
    let b = le_bytes_u64(bits);
    write_bytes(buffer, b.as_slice());
}

/// The place of a size that is written once its subject is: a placeholder
/// byte is put into `buffer`, and its position returned.
pub fn reserve_size(buffer: &mut Vec<u8>) -> (offset: usize)
    ensures
        final(buffer)@ == old(buffer)@.push(0u8),
        offset == old(buffer)@.len(),
{
    let offset = buffer.len();
    buffer.push(0x0);
    offset
}

/// Puts the LEB128 form of `n` in the place of the byte at `offset`, moving
/// what follows it.
pub fn write_unsigned_leb128_at_offset(bytes: &mut Vec<u8>, offset: usize, n: usize)
    requires
        offset < old(bytes)@.len(),
    ensures
        final(bytes)@ == old(bytes)@.subrange(0, offset as int) + unsigned_leb128(n as nat) + old(
            bytes,
        )@.subrange(offset + 1, old(bytes)@.len() as int),
{
    let ghost head = bytes@.subrange(0, offset as int);
    let ghost tail = bytes@.subrange(offset + 1, bytes@.len() as int);
    bytes.remove(offset);
    assert(bytes@ =~= head + tail);
    let mut buffer: Vec<u8> = Vec::new();
    write_unsigned_leb128(&mut buffer, n as u64);
    assert(buffer@ =~= unsigned_leb128(n as nat));
    let mut i: usize = 0;
    while i < buffer.len()
        invariant
            i <= buffer.len(),
            head.len() == offset,
            bytes@ == head + buffer@.subrange(0, i as int) + tail,
        decreases buffer.len() - i,
    {
        let total = bytes.len();
        assert(offset + i <= total);
        bytes.insert(offset + i, buffer[i]);
        i += 1;
        assert(bytes@ =~= head + buffer@.subrange(0, i as int) + tail);
    }
    assert(buffer@.subrange(0, i as int) =~= buffer@);
}

/// Writes the size of what was written behind the placeholder at `offset`,
/// in its place.
pub fn patch_size(buffer: &mut Vec<u8>, offset: usize)
    requires
        offset < old(buffer)@.len(),
    ensures
        final(buffer)@ == old(buffer)@.subrange(0, offset as int) + unsigned_leb128(
            (old(buffer)@.len() - offset - 1) as nat,
        ) + old(buffer)@.subrange(offset + 1, old(buffer)@.len() as int),
{
    let len = buffer.len() - offset - 1;
    write_unsigned_leb128_at_offset(buffer, offset, len);
}

/// A part of a module that stands in vectors: what it encodes to, and its
/// encoder.
pub trait Encode: DeepView {
    /// Whether the part has an encoding.
    spec fn encodable(v: Self::V) -> bool;

    /// The bytes of the part.
    spec fn encoding(v: Self::V) -> Seq<u8>;

    fn write(&self, buffer: &mut Vec<u8>) -> (r: Result<(), EncodeError>)
        ensures
            r is Ok <==> Self::encodable(self.deep_view()),
            r is Ok ==> final(buffer)@ == old(buffer)@ + Self::encoding(self.deep_view()),
    ;
}

/// The encodings of `items`, one after the other.
pub open spec fn encode_items<T: Encode>(items: Seq<T::V>) -> Seq<u8>
    decreases items.len(),
{
    if items.len() == 0 {
        Seq::empty()
    } else {
        encode_items::<T>(items.drop_last()) + T::encoding(items.last())
    }
}

/// Whether each of `items` has an encoding.
pub open spec fn all_encodable<T: Encode>(items: Seq<T::V>) -> bool {
    forall|k: int| 0 <= k < items.len() ==> T::encodable(#[trigger] items[k])
}

/// A vector: the number of its items as LEB128, then the items.
pub open spec fn encode_vec<T: Encode>(items: Seq<T::V>) -> Seq<u8> {
    unsigned_leb128(items.len()) + encode_items::<T>(items)
}

/// Writes a vector: the number of its items, then the items.
pub fn write_vec<T: Encode>(buffer: &mut Vec<u8>, vec: &Vec<T>) -> (r: Result<(), EncodeError>)
    ensures
        r is Ok <==> all_encodable::<T>(vec.deep_view()),
        r is Ok ==> final(buffer)@ == old(buffer)@ + encode_vec::<T>(vec.deep_view()),
{
    write_vec_len(buffer, vec);
    let ghost items = vec.deep_view();
    let ghost start = buffer@;
    let mut k: usize = 0;
    assert(items.subrange(0, 0) =~= Seq::<T::V>::empty());
    while k < vec.len()
        invariant
            k <= vec.len(),
            items == vec.deep_view(),
            items.len() == vec@.len(),
            all_encodable::<T>(items.subrange(0, k as int)),
            buffer@ == start + encode_items::<T>(items.subrange(0, k as int)),
        decreases vec.len() - k,
    {
        let ghost before = items.subrange(0, k as int);
        match vec[k].write(buffer) {
            Ok(()) => {},
            Err(e) => {
                assert(!T::encodable(items[k as int]));
                return Err(e);
            },
        }
        k += 1;
        proof {
            let now = items.subrange(0, k as int);
            assert(now.drop_last() =~= before);
            assert(now.last() == items[k - 1]);
            assert forall|j: int| 0 <= j < now.len() implies T::encodable(#[trigger] now[j]) by {
                if j < k - 1 {
                    assert(now[j] == before[j]);
                }
            }
        }
    }
    assert(items.subrange(0, k as int) =~= items);
    assert(buffer@ =~= old(buffer)@ + encode_vec::<T>(items));
    Ok(())
}

impl Encode for u32 {
    open spec fn encodable(v: u32) -> bool {
        true
    }

    open spec fn encoding(v: u32) -> Seq<u8> {
        unsigned_leb128(v as nat)
    }

    fn write(&self, buffer: &mut Vec<u8>) -> (r: Result<(), EncodeError>) {
        write_unsigned_leb128(buffer, *self as u64);
        Ok(())
    }
}

/// The byte of a value type.
pub open spec fn encode_value_type(t: ValueType) -> Seq<u8> {
    match t {
        ValueType::NumType(NumType::I32) => seq![0x7Fu8],
        ValueType::NumType(NumType::I64) => seq![0x7Eu8],
        ValueType::NumType(NumType::F32) => seq![0x7Du8],
        ValueType::NumType(NumType::F64) => seq![0x7Cu8],
    }
}

/// Writes a value type.
pub fn write_value_type(buffer: &mut Vec<u8>, value_type: &ValueType)
    ensures
        final(buffer)@ == old(buffer)@ + encode_value_type(*value_type),
{
    let b: u8 = match value_type {
        ValueType::NumType(NumType::I32) => 0x7F,
        ValueType::NumType(NumType::I64) => 0x7E,
        ValueType::NumType(NumType::F32) => 0x7D,
        ValueType::NumType(NumType::F64) => 0x7C,
    };
    buffer.push(b);
    assert(buffer@ =~= old(buffer)@ + encode_value_type(*value_type));
}

impl Encode for ValueType {
    open spec fn encodable(v: ValueType) -> bool {
        true
    }

    open spec fn encoding(v: ValueType) -> Seq<u8> {
        encode_value_type(v)
    }

    fn write(&self, buffer: &mut Vec<u8>) -> (r: Result<(), EncodeError>) {
        write_value_type(buffer, self);
        Ok(())
    }
}

/// The byte of a reference type.
pub open spec fn encode_reftype(t: Reftype) -> Seq<u8> {
    match t {
        Reftype::Func => seq![0x70u8],
        Reftype::Extern => seq![0x6Fu8],
    }
}

/// Writes a reference type.
pub fn write_reftype(buffer: &mut Vec<u8>, typeref: &Reftype)
    ensures
        final(buffer)@ == old(buffer)@ + encode_reftype(*typeref),
{
    let b: u8 = match typeref {
        Reftype::Func => 0x70,
        Reftype::Extern => 0x6F,
    };
    buffer.push(b);
    assert(buffer@ =~= old(buffer)@ + encode_reftype(*typeref));
}

/// Limits: a flag byte, the minimum, and the maximum if there is one.
pub open spec fn encode_limits(min: u32, max: Option<u32>) -> Seq<u8> {
    match max {
        Some(max) => seq![0x01u8] + unsigned_leb128(min as nat) + unsigned_leb128(max as nat),
        None => seq![0x00u8] + unsigned_leb128(min as nat),
    }
}

/// Writes limits.
pub fn write_limits(buffer: &mut Vec<u8>, limits: &Limits)
    ensures
        final(buffer)@ == old(buffer)@ + encode_limits(limits.min, limits.max),
{
    if let Some(max) = limits.max {
        buffer.push(0x01);
        write_unsigned_leb128(buffer, limits.min as u64);
        write_unsigned_leb128(buffer, max as u64);
    } else {
        buffer.push(0x00);
        write_unsigned_leb128(buffer, limits.min as u64);
    }
    assert(buffer@ =~= old(buffer)@ + encode_limits(limits.min, limits.max));
}

/// A table: its reference type and its limits.
pub open spec fn encode_table(t: Table) -> Seq<u8> {
    encode_reftype(t.reftype) + encode_limits(t.limits.min, t.limits.max)
}

/// Writes a table.
pub fn write_table(buffer: &mut Vec<u8>, table: &Table)
    ensures
        final(buffer)@ == old(buffer)@ + encode_table(*table),
{
    write_reftype(buffer, &table.reftype);
    write_limits(buffer, &table.limits);
    assert(buffer@ =~= old(buffer)@ + encode_table(*table));
}

impl Encode for Table {
    open spec fn encodable(v: Table) -> bool {
        true
    }

    open spec fn encoding(v: Table) -> Seq<u8> {
        encode_table(v)
    }

    fn write(&self, buffer: &mut Vec<u8>) -> (r: Result<(), EncodeError>) {
        write_table(buffer, self);
        Ok(())
    }
}

/// A memory: its limits.
pub open spec fn encode_memory(m: Memory) -> Seq<u8> {
    encode_limits(m.min.value, m.max)
}

/// Writes a memory.
pub fn write_memory(buffer: &mut Vec<u8>, mem: &Memory)
    ensures
        final(buffer)@ == old(buffer)@ + encode_memory(*mem),
{
    if let Some(max) = mem.max {
        buffer.push(0x1);
        write_unsigned_leb128(buffer, mem.min.value as u64);
        write_unsigned_leb128(buffer, max as u64);
    } else {
        buffer.push(0x0);
        write_unsigned_leb128(buffer, mem.min.value as u64);
    }
    assert(buffer@ =~= old(buffer)@ + encode_memory(*mem));
}

impl Encode for Memory {
    open spec fn encodable(v: Memory) -> bool {
        true
    }

    open spec fn encoding(v: Memory) -> Seq<u8> {
        encode_memory(v)
    }

    fn write(&self, buffer: &mut Vec<u8>) -> (r: Result<(), EncodeError>) {
        write_memory(buffer, self);
        Ok(())
    }
}

/// A global's type: its value type, then 1 where it is mutable and 0 where
/// it is not.
pub open spec fn encode_global_type(t: GlobalType) -> Seq<u8> {
    encode_value_type(t.valtype) + seq![if t.mutable { 0x01u8 } else { 0x00u8 }]
}

/// Writes the type of a global.
pub fn write_global_type(buffer: &mut Vec<u8>, t: &GlobalType)
    ensures
        final(buffer)@ == old(buffer)@ + encode_global_type(*t),
{
    write_value_type(buffer, &t.valtype);
    if t.mutable {
        buffer.push(0x01);
    } else {
        buffer.push(0x00);
    }
    assert(buffer@ =~= old(buffer)@ + encode_global_type(*t));
}

/// A run of locals: how many, and their type.
pub open spec fn encode_code_local(l: CodeLocal) -> Seq<u8> {
    unsigned_leb128(l.count as nat) + encode_value_type(l.value_type)
}

impl Encode for CodeLocal {
    open spec fn encodable(v: CodeLocal) -> bool {
        true
    }

    open spec fn encoding(v: CodeLocal) -> Seq<u8> {
        encode_code_local(v)
    }

    fn write(&self, buffer: &mut Vec<u8>) -> (r: Result<(), EncodeError>) {
        write_unsigned_leb128(buffer, self.count as u64);
        write_value_type(buffer, &self.value_type);
        assert(buffer@ =~= old(buffer)@ + encode_code_local(*self));
        Ok(())
    }
}

/// Writes the runs of locals of a function as a vector.
pub fn write_code_local(buffer: &mut Vec<u8>, locals: &Vec<CodeLocal>)
    ensures
        final(buffer)@ == old(buffer)@ + encode_vec::<CodeLocal>(locals@),
{
    proof {
        lemma_plain_view(*locals);
    }
    let r = write_vec::<CodeLocal>(buffer, locals);
    assert(r is Ok);
}

/// A function type: the byte `0x60`, the parameter types, the result types.
pub open spec fn encode_type(t: TypeV) -> Seq<u8> {
    seq![0x60u8] + encode_vec::<ValueType>(t.params) + encode_vec::<ValueType>(t.results)
}

impl Encode for Type {
    open spec fn encodable(v: TypeV) -> bool {
        true
    }

    open spec fn encoding(v: TypeV) -> Seq<u8> {
        encode_type(v)
    }

    fn write(&self, buffer: &mut Vec<u8>) -> (r: Result<(), EncodeError>) {
        proof {
            lemma_plain_view(self.params);
            lemma_plain_view(self.results);
        }
        buffer.push(0x60);
        let a = write_vec::<ValueType>(buffer, &self.params);
        let b = write_vec::<ValueType>(buffer, &self.results);
        assert(a is Ok && b is Ok);
        assert(buffer@ =~= old(buffer)@ + encode_type(self.deep_view()));
        Ok(())
    }
}

/// What an import holds: a byte for its kind, then the type index, the
/// table, the memory or the global's type.
pub open spec fn encode_import_type(t: ImportType) -> Seq<u8> {
    match t {
        ImportType::Func(typeidx) => seq![0x00u8] + unsigned_leb128(typeidx as nat),
        ImportType::Table(table) => seq![0x01u8] + encode_table(table),
        ImportType::Memory(mem) => seq![0x02u8] + encode_memory(mem),
        ImportType::Global(global_type) => seq![0x03u8] + encode_global_type(global_type),
    }
}

/// An import: the module's name, the item's name, and what it holds.
pub open spec fn encode_import(i: ImportV) -> Seq<u8> {
    encode_name(i.module) + encode_name(i.name) + encode_import_type(i.import_type)
}

impl Encode for Import {
    open spec fn encodable(v: ImportV) -> bool {
        true
    }

    open spec fn encoding(v: ImportV) -> Seq<u8> {
        encode_import(v)
    }

    fn write(&self, buffer: &mut Vec<u8>) -> (r: Result<(), EncodeError>) {
        write_utf8(buffer, self.module.as_str());
        write_utf8(buffer, self.name.as_str());
        let ghost mid = buffer@;
        match &self.import_type {
            ImportType::Func(typeidx) => {
                buffer.push(0x0);
                write_unsigned_leb128(buffer, *typeidx as u64);
            },
            ImportType::Table(table) => {
                buffer.push(0x1);
                write_table(buffer, table);
            },
            ImportType::Memory(mem) => {
                buffer.push(0x2);
                write_memory(buffer, mem);
            },
            ImportType::Global(global_type) => {
                buffer.push(0x3);
                write_global_type(buffer, global_type);
            },
        }
        assert(buffer@ =~= mid + encode_import_type(self.import_type));
        assert(buffer@ =~= old(buffer)@ + encode_import(self.deep_view()));
        Ok(())
    }
}

/// What is exported: a byte for the kind, then the index.
pub open spec fn encode_export_descr(d: ExportDescr) -> Seq<u8> {
    match d {
        ExportDescr::Func(idx) => seq![0x00u8] + unsigned_leb128(idx as nat),
        ExportDescr::Table(idx) => seq![0x01u8] + unsigned_leb128(idx as nat),
        ExportDescr::Mem(idx) => seq![0x02u8] + unsigned_leb128(idx as nat),
        ExportDescr::Global(idx) => seq![0x03u8] + unsigned_leb128(idx as nat),
    }
}

/// An export: its name and what is exported.
pub open spec fn encode_export(e: ExportV) -> Seq<u8> {
    encode_name(e.name) + encode_export_descr(e.descr)
}

impl Encode for Export {
    open spec fn encodable(v: ExportV) -> bool {
        true
    }

    open spec fn encoding(v: ExportV) -> Seq<u8> {
        encode_export(v)
    }

    fn write(&self, buffer: &mut Vec<u8>) -> (r: Result<(), EncodeError>) {
        write_utf8(buffer, self.name.as_str());
        let ghost mid = buffer@;
        let (tag, idx): (u8, u32) = match &self.descr {
            ExportDescr::Func(idx) => (0x00, *idx),
            ExportDescr::Table(idx) => (0x01, *idx),
            ExportDescr::Mem(idx) => (0x02, *idx),
            ExportDescr::Global(idx) => (0x03, *idx),
        };
        buffer.push(tag);
        write_unsigned_leb128(buffer, idx as u64);
        assert(buffer@ =~= mid + encode_export_descr(self.descr));
        assert(buffer@ =~= old(buffer)@ + encode_export(self.deep_view()));
        Ok(())
    }
}

/// A block type: `0x40` for none, the byte of a value type, or the index of a
/// type as signed LEB128.
pub open spec fn encode_blocktype(t: BlockType) -> Seq<u8> {
    match t {
        BlockType::Empty => seq![0x40u8],
        BlockType::ValueType(valtype) => encode_value_type(valtype),
        BlockType::Typeidx(typeidx) => signed_leb128(typeidx as int),
    }
}

/// Writes a block type.
pub fn write_blocktype(buffer: &mut Vec<u8>, block_type: &BlockType)
    ensures
        final(buffer)@ == old(buffer)@ + encode_blocktype(*block_type),
{
    match block_type {
        BlockType::Empty => {
            buffer.push(0x40);
            assert(buffer@ =~= old(buffer)@ + encode_blocktype(*block_type));
        },
        BlockType::ValueType(valtype) => {
            write_value_type(buffer, valtype);
        },
        BlockType::Typeidx(typeidx) => {
            write_signed_leb128(buffer, *typeidx as i64);
        },
    }
}

/// The bytes that follow the first byte of the encoding of an instruction
/// that owns no sequence: its immediates, and for `memory.copy` and
/// `memory.fill` the second byte of the opcode before them.
pub open spec fn immediates(i: Instr) -> Seq<u8> {
    match i {
        Instr::br(x) => unsigned_leb128(x as nat),
        Instr::br_if(x) => unsigned_leb128(x as nat),
        Instr::call(x) => unsigned_leb128(x.value as nat),
        Instr::call_indirect(x, y) => unsigned_leb128(x as nat) + unsigned_leb128(y as nat),
        Instr::local_get(x) => unsigned_leb128(x as nat),
        Instr::local_set(x) => unsigned_leb128(x as nat),
        Instr::local_tee(x) => unsigned_leb128(x as nat),
        Instr::global_get(x) => unsigned_leb128(x as nat),
        Instr::global_set(x) => unsigned_leb128(x as nat),
        Instr::table_get(x) => unsigned_leb128(x as nat),
        Instr::table_set(x) => unsigned_leb128(x as nat),
        Instr::i32_load(x, y) => unsigned_leb128(x.value as nat) + unsigned_leb128(y as nat),
        Instr::i64_load(x, y) => unsigned_leb128(x.value as nat) + unsigned_leb128(y as nat),
        Instr::f32_load(x, y) => unsigned_leb128(x.value as nat) + unsigned_leb128(y as nat),
        Instr::f64_load(x, y) => unsigned_leb128(x.value as nat) + unsigned_leb128(y as nat),
        Instr::i32_load8_s(x, y) => unsigned_leb128(x.value as nat) + unsigned_leb128(y as nat),
        Instr::i32_load8_u(x, y) => unsigned_leb128(x.value as nat) + unsigned_leb128(y as nat),
        Instr::i32_load16_s(x, y) => unsigned_leb128(x.value as nat) + unsigned_leb128(y as nat),
        Instr::i32_load16_u(x, y) => unsigned_leb128(x.value as nat) + unsigned_leb128(y as nat),
        Instr::i64_load8_s(x, y) => unsigned_leb128(x.value as nat) + unsigned_leb128(y as nat),
        Instr::i64_load8_u(x, y) => unsigned_leb128(x.value as nat) + unsigned_leb128(y as nat),
        Instr::i64_load16_s(x, y) => unsigned_leb128(x.value as nat) + unsigned_leb128(y as nat),
        Instr::i64_load16_u(x, y) => unsigned_leb128(x.value as nat) + unsigned_leb128(y as nat),
        Instr::i64_load32_s(x, y) => unsigned_leb128(x.value as nat) + unsigned_leb128(y as nat),
        Instr::i64_load32_u(x, y) => unsigned_leb128(x.value as nat) + unsigned_leb128(y as nat),
        Instr::i32_store(x, y) => unsigned_leb128(x.value as nat) + unsigned_leb128(y as nat),
        Instr::i64_store(x, y) => unsigned_leb128(x.value as nat) + unsigned_leb128(y as nat),
        Instr::f32_store(x, y) => unsigned_leb128(x.value as nat) + unsigned_leb128(y as nat),
        Instr::f64_store(x, y) => unsigned_leb128(x.value as nat) + unsigned_leb128(y as nat),
        Instr::i32_store8(x, y) => unsigned_leb128(x.value as nat) + unsigned_leb128(y as nat),
        Instr::i32_store16(x, y) => unsigned_leb128(x.value as nat) + unsigned_leb128(y as nat),
        Instr::i64_store8(x, y) => unsigned_leb128(x.value as nat) + unsigned_leb128(y as nat),
        Instr::i64_store16(x, y) => unsigned_leb128(x.value as nat) + unsigned_leb128(y as nat),
        Instr::i64_store32(x, y) => unsigned_leb128(x.value as nat) + unsigned_leb128(y as nat),
        Instr::memory_size(x) => seq![x],
        Instr::memory_grow(x) => seq![x],
        Instr::i32_const(x) => signed_leb128(x as int),
        Instr::i64_const(x) => signed_leb128(x as int),
        Instr::f32_const(bits) => le_bytes(bits as nat, 4),
        Instr::f64_const(bits) => le_bytes(bits as nat, 8),
        Instr::memory_copy(x, y) => seq![10u8, x, y],
        Instr::memory_fill(x) => seq![11u8, x],
        _ => Seq::empty(),
    }
}

fn write_immediates(buffer: &mut Vec<u8>, i: &Instr)
    ensures
        final(buffer)@ == old(buffer)@ + immediates(*i),
{
    match i {
        Instr::br(x) => write_unsigned_leb128(buffer, *x as u64),
        Instr::br_if(x) => write_unsigned_leb128(buffer, *x as u64),
        Instr::call(x) => write_unsigned_leb128(buffer, x.value as u64),
        Instr::call_indirect(x, y) => {
            write_unsigned_leb128(buffer, *x as u64);
            write_unsigned_leb128(buffer, *y as u64);
        },
        Instr::local_get(x) => write_unsigned_leb128(buffer, *x as u64),
        Instr::local_set(x) => write_unsigned_leb128(buffer, *x as u64),
        Instr::local_tee(x) => write_unsigned_leb128(buffer, *x as u64),
        Instr::global_get(x) => write_unsigned_leb128(buffer, *x as u64),
        Instr::global_set(x) => write_unsigned_leb128(buffer, *x as u64),
        Instr::table_get(x) => write_unsigned_leb128(buffer, *x as u64),
        Instr::table_set(x) => write_unsigned_leb128(buffer, *x as u64),
        Instr::i32_load(x, y) => {
            write_unsigned_leb128(buffer, x.value as u64);
            write_unsigned_leb128(buffer, *y as u64);
        },
        Instr::i64_load(x, y) => {
            write_unsigned_leb128(buffer, x.value as u64);
            write_unsigned_leb128(buffer, *y as u64);
        },
        Instr::f32_load(x, y) => {
            write_unsigned_leb128(buffer, x.value as u64);
            write_unsigned_leb128(buffer, *y as u64);
        },
        Instr::f64_load(x, y) => {
            write_unsigned_leb128(buffer, x.value as u64);
            write_unsigned_leb128(buffer, *y as u64);
        },
        Instr::i32_load8_s(x, y) => {
            write_unsigned_leb128(buffer, x.value as u64);
            write_unsigned_leb128(buffer, *y as u64);
        },
        Instr::i32_load8_u(x, y) => {
            write_unsigned_leb128(buffer, x.value as u64);
            write_unsigned_leb128(buffer, *y as u64);
        },
        Instr::i32_load16_s(x, y) => {
            write_unsigned_leb128(buffer, x.value as u64);
            write_unsigned_leb128(buffer, *y as u64);
        },
        Instr::i32_load16_u(x, y) => {
            write_unsigned_leb128(buffer, x.value as u64);
            write_unsigned_leb128(buffer, *y as u64);
        },
        Instr::i64_load8_s(x, y) => {
            write_unsigned_leb128(buffer, x.value as u64);
            write_unsigned_leb128(buffer, *y as u64);
        },
        Instr::i64_load8_u(x, y) => {
            write_unsigned_leb128(buffer, x.value as u64);
            write_unsigned_leb128(buffer, *y as u64);
        },
        Instr::i64_load16_s(x, y) => {
            write_unsigned_leb128(buffer, x.value as u64);
            write_unsigned_leb128(buffer, *y as u64);
        },
        Instr::i64_load16_u(x, y) => {
            write_unsigned_leb128(buffer, x.value as u64);
            write_unsigned_leb128(buffer, *y as u64);
        },
        Instr::i64_load32_s(x, y) => {
            write_unsigned_leb128(buffer, x.value as u64);
            write_unsigned_leb128(buffer, *y as u64);
        },
        Instr::i64_load32_u(x, y) => {
            write_unsigned_leb128(buffer, x.value as u64);
            write_unsigned_leb128(buffer, *y as u64);
        },
        Instr::i32_store(x, y) => {
            write_unsigned_leb128(buffer, x.value as u64);
            write_unsigned_leb128(buffer, *y as u64);
        },
        Instr::i64_store(x, y) => {
            write_unsigned_leb128(buffer, x.value as u64);
            write_unsigned_leb128(buffer, *y as u64);
        },
        Instr::f32_store(x, y) => {
            write_unsigned_leb128(buffer, x.value as u64);
            write_unsigned_leb128(buffer, *y as u64);
        },
        Instr::f64_store(x, y) => {
            write_unsigned_leb128(buffer, x.value as u64);
            write_unsigned_leb128(buffer, *y as u64);
        },
        Instr::i32_store8(x, y) => {
            write_unsigned_leb128(buffer, x.value as u64);
            write_unsigned_leb128(buffer, *y as u64);
        },
        Instr::i32_store16(x, y) => {
            write_unsigned_leb128(buffer, x.value as u64);
            write_unsigned_leb128(buffer, *y as u64);
        },
        Instr::i64_store8(x, y) => {
            write_unsigned_leb128(buffer, x.value as u64);
            write_unsigned_leb128(buffer, *y as u64);
        },
        Instr::i64_store16(x, y) => {
            write_unsigned_leb128(buffer, x.value as u64);
            write_unsigned_leb128(buffer, *y as u64);
        },
        Instr::i64_store32(x, y) => {
            write_unsigned_leb128(buffer, x.value as u64);
            write_unsigned_leb128(buffer, *y as u64);
        },
        Instr::memory_size(x) => buffer.push(*x),
        Instr::memory_grow(x) => buffer.push(*x),
        Instr::i32_const(x) => write_signed_leb128(buffer, *x),
        Instr::i64_const(x) => write_signed_leb128(buffer, *x),
        Instr::f32_const(bits) => write_float_f32(buffer, *bits),
        Instr::f64_const(bits) => write_float_f64(buffer, *bits),
        Instr::memory_copy(x, y) => {
            buffer.push(10);
            buffer.push(*x);
            buffer.push(*y);
        },
        Instr::memory_fill(x) => {
            buffer.push(11);
            buffer.push(*x);
        },
        _ => {},
    }
    assert(buffer@ =~= old(buffer)@ + immediates(*i));
}

/// Whether the instruction `i`, which owns no sequence, has an encoding.
pub open spec fn leaf_encodable(i: Instr) -> bool {
    opcode(i) is Some && !(i is Block) && !(i is Loop) && !(i is If) && !(i is br_table)
}

/// The encoding of an instruction: its opcode, then its immediates, or its
/// block type and its body.
pub open spec fn encode_instr(i: InstrV) -> Seq<u8>
    decreases i,
{
    match i {
        InstrV::Leaf(x) => match opcode(x) {
            Some(op) => seq![op] + immediates(x),
            None => Seq::empty(),
        },
        InstrV::BrTable(labels, default) => seq![0x0eu8] + encode_vec::<u32>(labels)
            + unsigned_leb128(default as nat),
        InstrV::Block(t, body) => seq![0x02u8] + encode_blocktype(t) + encode_nodes(
            body.value,
            body.value.len(),
        ),
        InstrV::Loop(t, body) => seq![0x03u8] + encode_blocktype(t) + encode_nodes(
            body.value,
            body.value.len(),
        ),
        InstrV::If(t, body) => seq![0x04u8] + encode_blocktype(t) + encode_nodes(
            body.value,
            body.value.len(),
        ),
    }
}

/// The encodings of the first `n` instructions of `s`, one after the other.
pub open spec fn encode_nodes(s: Seq<Value<InstrV>>, n: nat) -> Seq<u8>
    decreases s, n,
{
    if n == 0 || n > s.len() {
        Seq::empty()
    } else {
        encode_nodes(s, (n - 1) as nat) + encode_instr(s[n - 1].value)
    }
}

/// Whether the instruction `i` has an encoding: it is not one of those that
/// have no opcode here, nor does its body hold one.
pub open spec fn instr_encodable(i: InstrV) -> bool
    decreases i,
{
    match i {
        InstrV::Leaf(x) => leaf_encodable(x),
        InstrV::BrTable(..) => true,
        InstrV::Block(_, body) => nodes_encodable(body.value, body.value.len()),
        InstrV::Loop(_, body) => nodes_encodable(body.value, body.value.len()),
        InstrV::If(_, body) => nodes_encodable(body.value, body.value.len()),
    }
}

/// Whether each of the first `n` instructions of `s` has an encoding.
pub open spec fn nodes_encodable(s: Seq<Value<InstrV>>, n: nat) -> bool
    decreases s, n,
{
    if n == 0 || n > s.len() {
        true
    } else {
        nodes_encodable(s, (n - 1) as nat) && instr_encodable(s[n - 1].value)
    }
}

/// The encoding of an expression: its instructions, one after the other.
pub open spec fn encode_expr(e: ExprV) -> Seq<u8> {
    encode_nodes(e.value, e.value.len())
}

/// Whether each instruction of an expression has an encoding.
pub open spec fn expr_encodable(e: ExprV) -> bool {
    nodes_encodable(e.value, e.value.len())
}

/// Writes an instruction, with its body where it has one. Fails where the
/// instruction, or one in its body, has no encoding.
pub fn write_instr(buffer: &mut Vec<u8>, i: &Instr) -> (r: Result<(), EncodeError>)
    ensures
        r is Ok <==> instr_encodable(i.deep_view()),
        r is Ok ==> final(buffer)@ == old(buffer)@ + encode_instr(i.deep_view()),
    decreases *i,
{
    proof {
        lemma_instr_view(*i);
    }
    match i {
        Instr::Block(block_type, body) => {
            buffer.push(0x02);
            write_blocktype(buffer, block_type);
            write_code_expr(buffer, &body.value)?;
            assert(buffer@ =~= old(buffer)@ + encode_instr(i.deep_view()));
            Ok(())
        },
        Instr::Loop(block_type, body) => {
            buffer.push(0x03);
            write_blocktype(buffer, block_type);
            write_code_expr(buffer, &body.value)?;
            assert(buffer@ =~= old(buffer)@ + encode_instr(i.deep_view()));
            Ok(())
        },
        Instr::If(block_type, body) => {
            buffer.push(0x04);
            write_blocktype(buffer, block_type);
            write_code_expr(buffer, &body.value)?;
            assert(buffer@ =~= old(buffer)@ + encode_instr(i.deep_view()));
            Ok(())
        },
        Instr::br_table(labels, default) => {
            proof {
                lemma_plain_view(*labels);
            }
            buffer.push(0x0e);
            let r = write_vec::<u32>(buffer, labels);
            assert(r is Ok);
            write_unsigned_leb128(buffer, *default as u64);
            assert(buffer@ =~= old(buffer)@ + encode_instr(i.deep_view()));
            Ok(())
        },
        _ => match opcode_of(i) {
            Some(op) => {
                buffer.push(op);
                write_immediates(buffer, i);
                assert(buffer@ =~= old(buffer)@ + encode_instr(i.deep_view()));
                Ok(())
            },
            None => Err(EncodeError::UnsupportedInstruction),
        },
    }
}

/// Writes the instructions of `expr`, one after the other.
pub fn write_code_expr(buffer: &mut Vec<u8>, expr: &Vec<Value<Instr>>) -> (r: Result<
    (),
    EncodeError,
>)
    ensures
        r is Ok <==> nodes_encodable(expr.deep_view(), expr@.len() as nat),
        r is Ok ==> final(buffer)@ == old(buffer)@ + encode_nodes(
            expr.deep_view(),
            expr@.len() as nat,
        ),
    decreases *expr,
{
    let ghost nodes = expr.deep_view();
    let mut k: usize = 0;
    assert(buffer@ =~= old(buffer)@ + encode_nodes(nodes, 0));
    while k < expr.len()
        invariant
            k <= expr.len(),
            nodes == expr.deep_view(),
            nodes.len() == expr@.len(),
            nodes_encodable(nodes, k as nat),
            buffer@ == old(buffer)@ + encode_nodes(nodes, k as nat),
        decreases expr.len() - k,
    {
        let ghost before = buffer@;
        assert(nodes[k as int].value == expr@[k as int].value.deep_view());
        match write_instr(buffer, &expr[k].value) {
            Ok(()) => {},
            Err(e) => {
                proof {
                    lemma_nodes_not_encodable(nodes, k as nat, nodes.len());
                }
                return Err(e);
            },
        }
        k += 1;
        assert(buffer@ =~= old(buffer)@ + encode_nodes(nodes, k as nat));
    }
    Ok(())
}

/// Where one of the first `n` instructions has no encoding, the first `n`
/// have none.
pub proof fn lemma_nodes_not_encodable(s: Seq<Value<InstrV>>, k: nat, n: nat)
    requires
        k < n <= s.len(),
        !instr_encodable(s[k as int].value),
    ensures
        !nodes_encodable(s, n),
    decreases n,
{
    if n > k + 1 {
        lemma_nodes_not_encodable(s, k, (n - 1) as nat);
    }
}

/// A global: its type, then the expression that initialises it.
pub open spec fn encode_global(g: GlobalV) -> Seq<u8> {
    encode_global_type(g.global_type) + encode_expr(g.expr)
}

impl Encode for Global {
    open spec fn encodable(v: GlobalV) -> bool {
        expr_encodable(v.expr)
    }

    open spec fn encoding(v: GlobalV) -> Seq<u8> {
        encode_global(v)
    }

    fn write(&self, buffer: &mut Vec<u8>) -> (r: Result<(), EncodeError>) {
        write_global_type(buffer, &self.global_type);
        write_code_expr(buffer, &self.expr.value)?;
        assert(buffer@ =~= old(buffer)@ + encode_global(self.deep_view()));
        Ok(())
    }
}

/// An element segment: the number 0, the offset expression, the function
/// indices.
pub open spec fn encode_element(e: ElementV) -> Seq<u8> {
    match e {
        ElementV::FuncActive(offset, funcs) => seq![0u8] + encode_expr(offset) + encode_vec::<u32>(
            funcs,
        ),
    }
}

impl Encode for Element {
    open spec fn encodable(v: ElementV) -> bool {
        match v {
            ElementV::FuncActive(offset, _) => expr_encodable(offset),
        }
    }

    open spec fn encoding(v: ElementV) -> Seq<u8> {
        encode_element(v)
    }

    fn write(&self, buffer: &mut Vec<u8>) -> (r: Result<(), EncodeError>) {
        match self {
            Element::FuncActive(expr, vec) => {
                proof {
                    lemma_plain_view(*vec);
                }
                buffer.push(0);
                write_code_expr(buffer, &expr.value)?;
                let r = write_vec::<u32>(buffer, vec);
                assert(r is Ok);
                assert(buffer@ =~= old(buffer)@ + encode_element(self.deep_view()));
                Ok(())
            },
        }
    }
}

/// A data segment: for an active one the number 0 and its offset expression,
/// for a passive one the number 1; then the bytes as a vector.
pub open spec fn encode_data(d: DataSegmentV) -> Seq<u8> {
    (if d.mode == DataSegmentMode::Active {
        unsigned_leb128(0) + match d.offset {
            Some(offset) => encode_expr(offset),
            None => Seq::empty(),
        }
    } else {
        unsigned_leb128(1)
    }) + encode_byte_vec(d.bytes)
}

impl Encode for DataSegment {
    open spec fn encodable(v: DataSegmentV) -> bool {
        v.mode == DataSegmentMode::Active ==> match v.offset {
            Some(offset) => expr_encodable(offset),
            None => true,
        }
    }

    open spec fn encoding(v: DataSegmentV) -> Seq<u8> {
        encode_data(v)
    }

    fn write(&self, buffer: &mut Vec<u8>) -> (r: Result<(), EncodeError>) {
        if self.mode == DataSegmentMode::Active {
            write_unsigned_leb128(buffer, 0);
            if let Some(offset) = &self.offset {
                write_code_expr(buffer, &offset.value)?;
            }
        } else {
            write_unsigned_leb128(buffer, 1);
        }
        write_byte_vec(buffer, &self.bytes);
        assert(buffer@ =~= old(buffer)@ + encode_data(self.deep_view()));
        Ok(())
    }
}

/// Bytes behind their length as LEB128.
pub open spec fn sized(bytes: Seq<u8>) -> Seq<u8> {
    unsigned_leb128(bytes.len()) + bytes
}

/// A function body: its size in bytes, then its runs of locals and its
/// instructions.
pub open spec fn encode_code(c: CodeV) -> Seq<u8> {
    sized(encode_vec::<CodeLocal>(c.locals) + encode_expr(c.body))
}

impl Encode for Code {
    open spec fn encodable(v: CodeV) -> bool {
        expr_encodable(v.body)
    }

    open spec fn encoding(v: CodeV) -> Seq<u8> {
        encode_code(v)
    }

    fn write(&self, buffer: &mut Vec<u8>) -> (r: Result<(), EncodeError>) {
        let before_offset = reserve_size(buffer);
        write_code_local(buffer, &self.locals);
        write_code_expr(buffer, &self.body.value)?;
        let ghost content = encode_vec::<CodeLocal>(self.locals@) + encode_expr(
            self.body.deep_view(),
        );
        assert(buffer@ =~= old(buffer)@.push(0u8) + content);
        patch_size(buffer, before_offset);
        assert(buffer@ =~= old(buffer)@ + encode_code(self.deep_view()));
        Ok(())
    }
}

/// The pairs of index and name of `m` for the indices below `n`, in order.
pub open spec fn encode_name_pairs(m: Map<u32, Seq<char>>, n: nat) -> Seq<u8>
    decreases n,
{
    if n == 0 {
        Seq::empty()
    } else {
        encode_name_pairs(m, (n - 1) as nat) + (if m.contains_key((n - 1) as u32) {
            unsigned_leb128((n - 1) as nat) + encode_name(m[(n - 1) as u32])
        } else {
            Seq::empty()
        })
    }
}

/// The pairs of index and name of `m` for the indices from `from` up to
/// `to`, in order.
pub open spec fn encode_pairs_from(m: Map<u32, Seq<char>>, from: nat, to: nat) -> Seq<u8>
    decreases to - from,
{
    if from >= to {
        Seq::empty()
    } else {
        (if m.contains_key(from as u32) {
            unsigned_leb128(from) + encode_name(m[from as u32])
        } else {
            Seq::empty()
        }) + encode_pairs_from(m, from + 1, to)
    }
}

/// The pairs up to `to` are those below `n`, then those from `n` on.
pub proof fn lemma_encode_pairs_from(m: Map<u32, Seq<char>>, n: nat, to: nat)
    requires
        n <= to,
    ensures
        encode_name_pairs(m, to) == encode_name_pairs(m, n) + encode_pairs_from(m, n, to),
    decreases to - n,
{
    if n < to {
        lemma_encode_pairs_from(m, n + 1, to);
        assert(encode_name_pairs(m, n + 1) + encode_pairs_from(m, n + 1, to) =~= encode_name_pairs(
            m,
            n,
        ) + encode_pairs_from(m, n, to));
    } else {
        assert(encode_name_pairs(m, n) + encode_pairs_from(m, n, to) =~= encode_name_pairs(m, n));
    }
}

/// The number of names that `m` has for the indices from `from` up to
/// `to`.
pub open spec fn present(m: Map<u32, Seq<char>>, from: nat, to: nat) -> nat
    decreases to - from,
{
    if from >= to {
        0
    } else {
        (if m.contains_key(from as u32) {
            1nat
        } else {
            0nat
        }) + present(m, from + 1, to)
    }
}

/// The names up to `to` are those below `n` and those from `n` on.
pub proof fn lemma_present_split(m: Map<u32, Seq<char>>, from: nat, n: nat, to: nat)
    requires
        from <= n <= to,
    ensures
        present(m, from, to) == present(m, from, n) + present(m, n, to),
    decreases n - from,
{
    if from < n {
        lemma_present_split(m, from + 1, n, to);
    }
}

/// The map `acc` with the names that `m` has for the indices from `from`
/// up to `to`.
pub open spec fn with_names(
    acc: Map<u32, Seq<char>>,
    m: Map<u32, Seq<char>>,
    from: nat,
    to: nat,
) -> Map<u32, Seq<char>>
    decreases to - from,
{
    if from >= to {
        acc
    } else if m.contains_key(from as u32) {
        with_names(acc.insert(from as u32, m[from as u32]), m, from + 1, to)
    } else {
        with_names(acc, m, from + 1, to)
    }
}

/// What `with_names` holds: the names that `m` has in the range, and else
/// what `acc` held. Where `acc` is finite and holds no name in the range or
/// behind it, the result has as many names more as `m` has in the range.
pub proof fn lemma_with_names(
    acc: Map<u32, Seq<char>>,
    m: Map<u32, Seq<char>>,
    from: nat,
    to: nat,
)
    requires
        to <= 0x1_0000_0000,
        acc.dom().finite(),
        forall|k: u32| acc.contains_key(k) ==> k < from,
    ensures
        forall|k: u32|
            #[trigger] with_names(acc, m, from, to).contains_key(k) <==> (acc.contains_key(k) || (
            from <= k < to && m.contains_key(k))),
        forall|k: u32|
            from <= k < to && m.contains_key(k) ==> #[trigger] with_names(acc, m, from, to)[k]
                == m[k],
        forall|k: u32|
            acc.contains_key(k) ==> #[trigger] with_names(acc, m, from, to)[k] == acc[k],
        with_names(acc, m, from, to).dom().finite(),
        with_names(acc, m, from, to).len() == acc.len() + present(m, from, to),
    decreases to - from,
{
    if from < to {
        if m.contains_key(from as u32) {
            let next = acc.insert(from as u32, m[from as u32]);
            assert(!acc.contains_key(from as u32));
            assert(next.dom() =~= acc.dom().insert(from as u32));
            lemma_with_names(next, m, from + 1, to);
            assert forall|k: u32|
                #[trigger] with_names(acc, m, from, to).contains_key(k) <==> (acc.contains_key(k)
                    || (from <= k < to && m.contains_key(k))) by {
                assert(with_names(next, m, from + 1, to).contains_key(k) <==> (next.contains_key(k)
                    || (from + 1 <= k < to && m.contains_key(k))));
            }
            assert forall|k: u32| from <= k < to && m.contains_key(k) implies #[trigger] with_names(
                acc,
                m,
                from,
                to,
            )[k] == m[k] by {
                if k == from {
                    assert(next.contains_key(k));
                    assert(with_names(next, m, from + 1, to)[k] == next[k]);
                } else {
                    assert(with_names(next, m, from + 1, to)[k] == m[k]);
                }
            }
            assert forall|k: u32| acc.contains_key(k) implies #[trigger] with_names(
                acc,
                m,
                from,
                to,
            )[k] == acc[k] by {
                assert(next.contains_key(k));
                assert(with_names(next, m, from + 1, to)[k] == next[k]);
            }
        } else {
            lemma_with_names(acc, m, from + 1, to);
            assert forall|k: u32|
                #[trigger] with_names(acc, m, from, to).contains_key(k) <==> (acc.contains_key(k)
                    || (from <= k < to && m.contains_key(k))) by {
                assert(with_names(acc, m, from + 1, to).contains_key(k) <==> (acc.contains_key(k)
                    || (from + 1 <= k < to && m.contains_key(k))));
            }
        }
    }
}

/// A finite map has no more names for the indices below `n` than it has
/// names; where it has as many, it has no name for another index.
pub proof fn lemma_present(m: Map<u32, Seq<char>>, n: nat)
    requires
        m.dom().finite(),
        n <= 0x1_0000_0000,
    ensures
        present(m, 0, n) <= m.len(),
        present(m, 0, n) == m.len() ==> forall|k: u32| m.contains_key(k) ==> k < n,
{
    let found = with_names(Map::empty(), m, 0, n);
    lemma_with_names(Map::empty(), m, 0, n);
    assert(Map::<u32, Seq<char>>::empty().len() == 0);
    assert(found.dom().subset_of(m.dom())) by {
        assert forall|k: u32| found.dom().contains(k) implies m.dom().contains(k) by {
            assert(found.contains_key(k));
        }
    }
    vstd::set_lib::lemma_len_subset(found.dom(), m.dom());
    if present(m, 0, n) == m.len() {
        vstd::set_lib::lemma_subset_equality(found.dom(), m.dom());
        assert forall|k: u32| m.contains_key(k) implies k < n by {
            assert(found.dom().contains(k));
            assert(found.contains_key(k));
        }
    }
}

/// A finite map holds all its names for the indices below 2^32: they are
/// as many as it has names, and with them gathered nothing is missing.
pub proof fn lemma_all_names(m: Map<u32, Seq<char>>)
    requires
        m.dom().finite(),
    ensures
        present(m, 0, 0x1_0000_0000) == m.len(),
        with_names(Map::empty(), m, 0, 0x1_0000_0000) == m,
{
    let all: nat = 0x1_0000_0000;
    let found = with_names(Map::empty(), m, 0, all);
    lemma_with_names(Map::empty(), m, 0, all);
    assert(Map::<u32, Seq<char>>::empty().len() == 0);
    assert(found =~= m);
}

/// Where none of the names of `m` has an index from `n` on, the pairs of
/// the indices from `n` on are empty.
pub proof fn lemma_no_pairs(m: Map<u32, Seq<char>>, n: nat, to: nat)
    requires
        n <= to <= 0x1_0000_0000,
        forall|k: u32| m.contains_key(k) ==> k < n,
    ensures
        encode_pairs_from(m, n, to) == Seq::<u8>::empty(),
    decreases to - n,
{
    if n < to {
        lemma_no_pairs(m, n + 1, to);
        assert(!m.contains_key(n as u32));
        assert(encode_pairs_from(m, n, to) =~= Seq::<u8>::empty());
    }
}

/// The name map of `m` as it is written: the number of names, then the
/// names in the order of their indices.
pub open spec fn encode_namemap(m: Map<u32, Seq<char>>) -> Seq<u8> {
    unsigned_leb128(m.len()) + encode_name_pairs(m, 0x1_0000_0000)
}

/// The contents of the `name` section: the function names as subsection 1,
/// where there are any. The module's name and the names of locals are not
/// written.
pub open spec fn encode_debug_names(d: DebugNamesV) -> Seq<u8> {
    match d.func_names {
        Some(m) => seq![1u8] + sized(encode_namemap(m)),
        None => Seq::empty(),
    }
}

/// Writes the contents of the `name` section: the function names in the
/// order of their indices.
pub fn write_section_custom_name(buffer: &mut Vec<u8>, content: &DebugNames)
    ensures
        final(buffer)@ == old(buffer)@ + encode_debug_names(content.deep_view()),
{
    broadcast use vstd::std_specs::hash::group_hash_axioms;

    if let Some(func_names) = &content.func_names {
        buffer.push(1);
        let ghost m = names_view(*func_names);
        assert(m.dom() =~= func_names@.dom());
        let mut subsection: Vec<u8> = Vec::new();
        let count = func_names.len();
        write_unsigned_leb128(&mut subsection, count as u64);
        let ghost start = subsection@;
        let mut funcidx: u64 = 0;
        let mut written: usize = 0;
        assert(subsection@ =~= start + encode_name_pairs(m, 0));
        while written < count && funcidx <= 0xffff_ffff
            invariant
                funcidx <= 0x1_0000_0000,
                m == names_view(*func_names),
                m.dom().finite(),
                count == m.len(),
                written == present(m, 0, funcidx as nat),
                written <= count,
                subsection@ == start + encode_name_pairs(m, funcidx as nat),
            decreases 0x1_0000_0000 - funcidx,
        {
            let key = funcidx as u32;
            proof {
                lemma_present_split(m, 0, funcidx as nat, (funcidx + 1) as nat);
                lemma_present(m, (funcidx + 1) as nat);
                assert(present(m, (funcidx + 1) as nat, (funcidx + 1) as nat) == 0);
                assert(present(m, funcidx as nat, (funcidx + 1) as nat) == if m.contains_key(key) {
                    1nat
                } else {
                    0nat
                });
            }
            if let Some(name) = func_names.get(&key) {
                assert(m.contains_key(key) && m[key] == name@);
                write_unsigned_leb128(&mut subsection, funcidx);
                write_utf8(&mut subsection, name.as_str());
                written += 1;
            } else {
                assert(!m.contains_key(key));
            }
            funcidx += 1;
            assert(subsection@ =~= start + encode_name_pairs(m, funcidx as nat));
        }
        proof {
            let all: nat = 0x1_0000_0000;
            lemma_present(m, funcidx as nat);
            lemma_encode_pairs_from(m, funcidx as nat, all);
            if funcidx < all {
                lemma_no_pairs(m, funcidx as nat, all);
            }
            assert(encode_name_pairs(m, all) =~= encode_name_pairs(m, funcidx as nat));
            assert(start =~= unsigned_leb128(m.len()));
        }
        write_unsigned_leb128(buffer, subsection.len() as u64);
        write_bytes(buffer, subsection.as_slice());
        assert(buffer@ =~= old(buffer)@ + encode_debug_names(content.deep_view()));
    } else {
        assert(buffer@ =~= old(buffer)@ + encode_debug_names(content.deep_view()));
    }
}

/// Writes the contents of the `build_id` section.
pub fn write_section_custom_build_id(buffer: &mut Vec<u8>, id: &Vec<u8>)
    ensures
        final(buffer)@ == old(buffer)@ + encode_byte_vec(id@),
{
    write_byte_vec(buffer, id);
}

/// The contents of a custom section: its name, then what it holds.
pub open spec fn encode_custom(c: CustomSectionV) -> Seq<u8> {
    match c {
        CustomSectionV::Unknown(name, bytes) => encode_name(name) + bytes,
        CustomSectionV::Name(names) => encode_name("name"@) + encode_debug_names(names),
        CustomSectionV::BuildId(id) => encode_name("build_id"@) + encode_byte_vec(id),
        CustomSectionV::CoredumpCore(info) => encode_name("core"@) + encode_process_info(info),
        CustomSectionV::CoredumpCoreStack(stack) => encode_name("corestack"@) + encode_core_stack(
            stack,
        ),
    }
}

/// Writes the contents of a custom section.
pub fn write_section_custom(buffer: &mut Vec<u8>, content: &CustomSection)
    ensures
        final(buffer)@ == old(buffer)@ + encode_custom(content.deep_view()),
{
    match content {
        CustomSection::Unknown(name, bytes) => {
            write_utf8(buffer, name.as_str());
            write_bytes(buffer, bytes.as_slice());
        },
        CustomSection::Name(content) => {
            write_utf8(buffer, "name");
            write_section_custom_name(buffer, content);
        },
        CustomSection::BuildId(id) => {
            write_utf8(buffer, "build_id");
            write_section_custom_build_id(buffer, id);
        },
        CustomSection::CoredumpCore(content) => {
            write_utf8(buffer, "core");
            encode_coredump_process(buffer, content);
        },
        CustomSection::CoredumpCoreStack(content) => {
            write_utf8(buffer, "corestack");
            encode_coredump_stack(buffer, content);
        },
    }
    assert(buffer@ =~= old(buffer)@ + encode_custom(content.deep_view()));
}

/// The id under which a section is written.
pub open spec fn section_id(section: SectionV) -> u8 {
    match section {
        SectionV::Custom(..) => 0,
        SectionV::Type(..) => 1,
        SectionV::Import(..) => 2,
        SectionV::Func(..) => 3,
        SectionV::Table(..) => 4,
        SectionV::Memory(..) => 5,
        SectionV::Global(..) => 6,
        SectionV::Export(..) => 7,
        SectionV::Element(..) => 9,
        SectionV::Code(..) => 10,
        SectionV::Data(..) => 11,
        SectionV::Unknown(id, _, _) => id,
    }
}

/// The contents of a section, without its id and its size.
pub open spec fn encode_section_content(section: SectionV) -> Seq<u8> {
    match section {
        SectionV::Custom(_, c) => encode_custom(c),
        SectionV::Type(_, v) => encode_vec::<Type>(v),
        SectionV::Import(_, v) => encode_vec::<Import>(v),
        SectionV::Func(_, v) => encode_vec::<u32>(v),
        SectionV::Table(_, v) => encode_vec::<Table>(v),
        SectionV::Memory(_, v) => encode_vec::<Memory>(v),
        SectionV::Global(_, v) => encode_vec::<Global>(v),
        SectionV::Export(_, v) => encode_vec::<Export>(v),
        SectionV::Element(_, v) => encode_vec::<Element>(v),
        SectionV::Code(_, v) => encode_vec::<Code>(v.value),
        SectionV::Data(_, v) => encode_vec::<DataSegment>(v),
        SectionV::Unknown(_, _, bytes) => bytes,
    }
}

/// Whether every instruction in a section has an encoding.
pub open spec fn section_encodable(section: SectionV) -> bool {
    match section {
        SectionV::Global(_, v) => all_encodable::<Global>(v),
        SectionV::Element(_, v) => all_encodable::<Element>(v),
        SectionV::Code(_, v) => all_encodable::<Code>(v.value),
        SectionV::Data(_, v) => all_encodable::<DataSegment>(v),
        _ => true,
    }
}

/// A section: its id, the size of its contents, its contents. The size is
/// the length of the contents as they are written, whatever size the
/// section holds.
pub open spec fn encode_section(section: SectionV) -> Seq<u8> {
    seq![section_id(section)] + sized(encode_section_content(section))
}

/// The id under which `section` is written.
fn id_of(section: &Section) -> (r: u8)
    ensures
        r == section_id(section.deep_view()),
{
    match section {
        Section::Custom(_, _) => 0,
        Section::Type(_, _) => 1,
        Section::Import(_, _) => 2,
        Section::Func(_, _) => 3,
        Section::Table(_, _) => 4,
        Section::Memory(_, _) => 5,
        Section::Global(_, _) => 6,
        Section::Export(_, _) => 7,
        Section::Element(_, _) => 9,
        Section::Code(_, _) => 10,
        Section::Data(_, _) => 11,
        Section::Unknown(id, _, _) => *id,
    }
}

/// Writes the contents of a section, without its id and its size. Fails
/// where an instruction in it has no encoding.
fn write_section_content(buffer: &mut Vec<u8>, section: &Section) -> (r: Result<(), EncodeError>)
    ensures
        r is Ok <==> section_encodable(section.deep_view()),
        r is Ok ==> final(buffer)@ == old(buffer)@ + encode_section_content(section.deep_view()),
{
    match section {
        Section::Custom(_, content) => {
            write_section_custom(buffer, content);
            Ok(())
        },
        Section::Type(_, content) => write_vec::<Type>(buffer, content),
        Section::Import(_, content) => write_vec::<Import>(buffer, content),
        Section::Func(_, content) => {
            proof {
                lemma_plain_view(*content);
            }
            write_vec::<u32>(buffer, content)
        },
        Section::Table(_, content) => {
            proof {
                lemma_plain_view(*content);
            }
            write_vec::<Table>(buffer, content)
        },
        Section::Memory(_, content) => {
            proof {
                lemma_plain_view(*content);
            }
            write_vec::<Memory>(buffer, content)
        },
        Section::Global(_, content) => write_vec::<Global>(buffer, content),
        Section::Export(_, content) => write_vec::<Export>(buffer, content),
        Section::Element(_, content) => write_vec::<Element>(buffer, content),
        Section::Code(_, content) => write_vec::<Code>(buffer, &content.value),
        Section::Data(_, content) => write_vec::<DataSegment>(buffer, content),
        Section::Unknown(_, _, content) => {
            write_bytes(buffer, content.as_slice());
            Ok(())
        },
    }
}

/// Writes a section: its id, the size of its contents, its contents. The
/// size is written once the contents are, and is their length. Fails where
/// an instruction in the section has no encoding.
pub fn write_section(buffer: &mut Vec<u8>, section: &Section) -> (r: Result<(), EncodeError>)
    ensures
        r is Ok <==> section_encodable(section.deep_view()),
        r is Ok ==> final(buffer)@ == old(buffer)@ + encode_section(section.deep_view()),
{
    let ghost view = section.deep_view();
    buffer.push(id_of(section));
    let offset = reserve_size(buffer);
    write_section_content(buffer, section)?;
    assert(buffer@ =~= old(buffer)@.push(section_id(view)).push(0u8) + encode_section_content(view));
    patch_size(buffer, offset);
    assert(buffer@ =~= old(buffer)@ + encode_section(view));
    Ok(())
}

/// The encodings of the first `n` of `sections`, one after the other.
pub open spec fn encode_sections(sections: Seq<Value<SectionV>>, n: nat) -> Seq<u8>
    decreases n,
{
    if n == 0 || n > sections.len() {
        Seq::empty()
    } else {
        encode_sections(sections, (n - 1) as nat) + encode_section(sections[n - 1].value)
    }
}

/// Whether every instruction of the module has an encoding.
pub open spec fn module_encodable(m: ModuleV) -> bool {
    forall|k: int| 0 <= k < m.sections.len() ==> section_encodable((#[trigger] m.sections[k]).value)
}

/// The first eight bytes of every module: the magic `\0asm`, and the version
/// 1 in four bytes, the least significant first.
pub open spec fn header() -> Seq<u8> {
    seq![0x00u8, 0x61u8, 0x73u8, 0x6du8, 0x01u8, 0x00u8, 0x00u8, 0x00u8]
}

/// The binary form of a module: the header, then its sections in their order.
pub open spec fn encode_module(m: ModuleV) -> Seq<u8> {
    header() + encode_sections(m.sections, m.sections.len())
}

/// Writes the header of a module.
pub fn write_header(buffer: &mut Vec<u8>)
    ensures
        final(buffer)@ == old(buffer)@ + header(),
{
    buffer.push(0x00);
    buffer.push(0x61);
    buffer.push(0x73);
    buffer.push(0x6d);
    buffer.push(0x01);
    buffer.push(0x00);
    buffer.push(0x00);
    buffer.push(0x00);
    assert(buffer@ =~= old(buffer)@ + header());
}

/// Encodes a module. It fails where a body holds an instruction that has no
/// opcode here, and only there.
pub fn print(module: &Module) -> (r: Result<Vec<u8>, EncodeError>)
    ensures
        match r {
            Ok(bytes) => module_encodable(module.deep_view()) && bytes@ == encode_module(
                module.deep_view(),
            ),
            Err(e) => !module_encodable(module.deep_view()) && e
                == EncodeError::UnsupportedInstruction,
        },
{
    let mut buffer: Vec<u8> = Vec::new();
    write_header(&mut buffer);
    let ghost m = module.deep_view();
    let mut k: usize = 0;
    assert(buffer@ =~= header() + encode_sections(m.sections, 0));
    while k < module.sections.len()
        invariant
            k <= module.sections.len(),
            m == module.deep_view(),
            m.sections.len() == module.sections@.len(),
            forall|j: int| 0 <= j < k ==> section_encodable((#[trigger] m.sections[j]).value),
            buffer@ == header() + encode_sections(m.sections, k as nat),
        decreases module.sections.len() - k,
    {
        assert(m.sections[k as int].value == module.sections@[k as int].value.deep_view());
        match write_section(&mut buffer, &module.sections[k].value) {
            Ok(()) => {},
            Err(e) => {
                return Err(e);
            },
        }
        k += 1;
        assert(buffer@ =~= header() + encode_sections(m.sections, k as nat));
    }
    Ok(buffer)
}

} // verus!
