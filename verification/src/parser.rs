//! The decoder: from the bytes of a WebAssembly binary to a `Module`.
//!
//! What each part of the format decodes to is a spec function from the input,
//! a position and a limit to the model of what is found there and the position
//! behind it, `None` where the bytes are no such part. Each executable decoder
//! returns what its spec function gives.

use crate::coredump_types;
use crate::ast::{
    BlockType, Code, CodeLocal, CodeV, CustomSection, CustomSectionV, DataSegment, DataSegmentMode,
    DataSegmentV, DebugNames, DebugNamesV, Element, ElementV, Export, ExportDescr, ExportV, Expr,
    ExprV, Global, GlobalType, GlobalV, Import, ImportType, ImportV, Instr, InstrV, Limits, Memory,
    Module, ModuleV, NumType, Reftype, Section, SectionV, Table, Type, TypeV, Value, ValueType,
    lemma_instr_view, lemma_plain_view, names_view,
};
use crate::coredump_types::{
    CoreStack, CoreStackV, ProcessInfo, ProcessInfoV, StackFrame, StackFrameV, ThreadInfo,
    ThreadInfoV,
};
use crate::opcodes::{
    decode_index, decode_memory_instr, decode_plain, index_instr, is_index_op, is_memory_op,
    memory_instr, plain_instr,
};
use crate::varint::{
    le_number, read_signed, read_signed_leb128, read_unsigned, read_unsigned_leb128,
    u32_of_le_bytes, u64_of_le_bytes,
};
use std::collections::HashMap;
use vstd::prelude::*;
use vstd::slice::{slice_subrange, slice_to_vec};
use vstd::string::StringExecFns;

verus! {

/// What a spec function of the format gives: the model that was parsed and the
/// position behind it.
pub type Parsed<T> = Option<(T, int)>;

/// The byte at `pos`.
pub open spec fn parse_u8(s: Seq<u8>, pos: int, end: int) -> Parsed<u8> {
    if 0 <= pos < end <= s.len() {
        Some((s[pos], pos + 1))
    } else {
        None
    }
}

/// The `n` bytes from `pos`.
pub open spec fn parse_bytes(s: Seq<u8>, pos: int, end: int, n: int) -> Parsed<Seq<u8>> {
    if 0 <= pos && 0 <= n && pos + n <= end <= s.len() {
        Some((s.subrange(pos, pos + n), pos + n))
    } else {
        None
    }
}

/// The unsigned LEB128 number at `pos`, where it is a 32-bit number: a
/// greater one is an error.
pub open spec fn parse_leb128(s: Seq<u8>, pos: int, end: int) -> Parsed<u32> {
    match read_unsigned(s, pos, end, 0) {
        Some((v, next)) => if v < 0x1_0000_0000 {
            Some((v as u32, next))
        } else {
            None
        },
        None => None,
    }
}

/// The signed LEB128 number at `pos`.
pub open spec fn parse_leb128_signed(s: Seq<u8>, pos: int, end: int) -> Parsed<i64> {
    match read_signed(s, pos, end, 0) {
        Some((v, next)) => Some((v as i64, next)),
        None => None,
    }
}

/// The four bytes at `pos` as a little-endian number.
pub open spec fn parse_u32(s: Seq<u8>, pos: int, end: int) -> Parsed<u32> {
    match parse_bytes(s, pos, end, 4) {
        Some((b, next)) => Some((le_number(b, 0) as u32, next)),
        None => None,
    }
}

/// The eight bytes at `pos` as a little-endian number.
pub open spec fn parse_u64(s: Seq<u8>, pos: int, end: int) -> Parsed<u64> {
    match parse_bytes(s, pos, end, 8) {
        Some((b, next)) => Some((le_number(b, 0) as u64, next)),
        None => None,
    }
}

/// The text that `String::from_utf8_lossy` makes of `bytes`.
pub uninterp spec fn utf8_lossy(bytes: Seq<u8>) -> Seq<char>;

/// The text of `bytes`: what they decode to where they are UTF-8, and else
/// what `String::from_utf8_lossy` makes of them.
pub open spec fn text_of(bytes: Seq<u8>) -> Seq<char> {
    if vstd::utf8::valid_utf8(bytes) {
        vstd::utf8::decode_utf8(bytes)
    } else {
        utf8_lossy(bytes)
    }
}

/// `String::from_utf8_lossy`, then `to_string`: the text of `bytes`. Bytes
/// that are UTF-8 are the text that they encode.
#[verifier::external_body]
fn string_from_utf8_lossy(bytes: &[u8]) -> (r: String)
    ensures
        r@ == text_of(bytes@),
        r@ == utf8_lossy(bytes@),
{
    String::from_utf8_lossy(bytes).to_string()
}

/// A name: its length in bytes as LEB128, then the bytes, read as text.
pub open spec fn parse_name(s: Seq<u8>, pos: int, end: int) -> Parsed<Seq<char>> {
    match parse_leb128(s, pos, end) {
        Some((n, p)) => match parse_bytes(s, p, end, n as int) {
            Some((b, q)) => Some((text_of(b), q)),
            None => None,
        },
        None => None,
    }
}

/// A byte vector: its length as LEB128, then the bytes.
pub open spec fn parse_byte_vec(s: Seq<u8>, pos: int, end: int) -> Parsed<Seq<u8>> {
    match parse_leb128(s, pos, end) {
        Some((n, p)) => parse_bytes(s, p, end, n as int),
        None => None,
    }
}

/// Where the decoder stands: the whole input, the position of the next byte,
/// and the position at which the part being decoded ends.
#[derive(Clone, Copy)]
pub struct InputContext<'a> {
    pub input: &'a [u8],
    pub offset: usize,
    pub end: usize,
}

impl<'a> InputContext<'a> {
    /// Whether the position and the end lie in the input, in this order.
    pub open spec fn wf(&self) -> bool {
        self.offset <= self.end <= self.input@.len()
    }

    /// Whether `r`, which a decoder returned from `self`, is what `parsed`
    /// says: the same model, the position behind it, the rest unchanged.
    pub open spec fn gives<T: DeepView>(
        &self,
        r: Option<(InputContext<'a>, T)>,
        parsed: Parsed<T::V>,
    ) -> bool {
        match parsed {
            Some((v, next)) => r matches Some((ctx, x)) && x.deep_view() == v && ctx.offset == next
                && ctx.end == self.end && ctx.input == self.input && ctx.wf() && self.offset
                <= next,
            None => r is None,
        }
    }

    /// As `gives`, for a value that is its own model.
    pub open spec fn gives_value<T>(&self, r: Option<(InputContext<'a>, T)>, parsed: Parsed<T>) -> bool {
        match parsed {
            Some((v, next)) => r == Some(
                (InputContext { input: self.input, offset: next as usize, end: self.end }, v),
            ) && self.offset <= next <= self.end,
            None => r is None,
        }
    }

    /// The context at the start of `input`, which ends with it.
    pub fn new(input: &'a [u8]) -> (r: Self)
        ensures
            r.wf(),
            r.input == input,
            r.offset == 0,
            r.end == input@.len(),
    {
        InputContext { input, offset: 0, end: input.len() }
    }

    /// Reads a byte.
    pub fn read_u8(self) -> (r: Option<(InputContext<'a>, u8)>)
        requires
            self.wf(),
        ensures
            self.gives(r, parse_u8(self.input@, self.offset as int, self.end as int)),
    {
        if self.offset < self.end {
            let b = self.input[self.offset];
            Some((InputContext { input: self.input, offset: self.offset + 1, end: self.end }, b))
        } else {
            None
        }
    }

    /// The next byte, without moving.
    pub fn peak_u8(self) -> (r: Option<(InputContext<'a>, u8)>)
        requires
            self.wf(),
        ensures
            match parse_u8(self.input@, self.offset as int, self.end as int) {
                Some((b, _)) => r == Some((self, b)),
                None => r is None,
            },
    {
        if self.offset < self.end {
            Some((self, self.input[self.offset]))
        } else {
            None
        }
    }

    /// Reads `n` bytes.
    pub fn read_bytes(self, n: usize) -> (r: Option<(InputContext<'a>, &'a [u8])>)
        requires
            self.wf(),
        ensures
            match parse_bytes(self.input@, self.offset as int, self.end as int, n as int) {
                Some((b, next)) => r matches Some((ctx, x)) && x@ == b && ctx.offset == next
                    && ctx.end == self.end && ctx.input == self.input && ctx.wf(),
                None => r is None,
            },
    {
        if n <= self.end - self.offset {
            let bytes = slice_subrange(self.input, self.offset, self.offset + n);
            Some((InputContext { input: self.input, offset: self.offset + n, end: self.end }, bytes))
        } else {
            None
        }
    }

    /// Reads four bytes as a number, the least significant first.
    pub fn read_u32(self) -> (r: Option<(InputContext<'a>, u32)>)
        requires
            self.wf(),
        ensures
            self.gives(r, parse_u32(self.input@, self.offset as int, self.end as int)),
    {
        match self.read_bytes(4) {
            Some((ctx, bytes)) => Some((ctx, u32_of_le_bytes(bytes))),
            None => None,
        }
    }

    /// Reads eight bytes as a number, the least significant first.
    pub fn read_u64(self) -> (r: Option<(InputContext<'a>, u64)>)
        requires
            self.wf(),
        ensures
            self.gives(r, parse_u64(self.input@, self.offset as int, self.end as int)),
    {
        match self.read_bytes(8) {
            Some((ctx, bytes)) => Some((ctx, u64_of_le_bytes(bytes))),
            None => None,
        }
    }

    /// Reads an unsigned LEB128 number of 32 bits. A greater number is an
    /// error.
    pub fn read_leb128(self) -> (r: Option<(InputContext<'a>, u32)>)
        requires
            self.wf(),
        ensures
            self.gives(r, parse_leb128(self.input@, self.offset as int, self.end as int)),
    {
        match read_unsigned_leb128(self.input, self.offset, self.end) {
            Some((v, next)) => {
                if v > 0xffff_ffff {
                    return None;
                }
                Some((InputContext { input: self.input, offset: next, end: self.end }, v as u32))
            },
            None => None,
        }
    }

    /// Reads a signed LEB128 number.
    pub fn read_leb128_signed(self) -> (r: Option<(InputContext<'a>, i64)>)
        requires
            self.wf(),
        ensures
            self.gives(r, parse_leb128_signed(self.input@, self.offset as int, self.end as int)),
    {
        match read_signed_leb128(self.input, self.offset, self.end) {
            Some((v, next)) => Some(
                (InputContext { input: self.input, offset: next, end: self.end }, v),
            ),
            None => None,
        }
    }

    /// The context for the `n` bytes from here, and the one behind them.
    pub fn split(self, n: usize) -> (r: Option<(InputContext<'a>, InputContext<'a>)>)
        requires
            self.wf(),
        ensures
            match parse_bytes(self.input@, self.offset as int, self.end as int, n as int) {
                Some((_, next)) => r == Some(
                    (
                        InputContext { input: self.input, offset: self.offset, end: next as usize },
                        InputContext { input: self.input, offset: next as usize, end: self.end },
                    ),
                ) && self.offset <= next <= self.end,
                None => r is None,
            },
    {
        if n <= self.end - self.offset {
            let mid = self.offset + n;
            Some(
                (
                    InputContext { input: self.input, offset: self.offset, end: mid },
                    InputContext { input: self.input, offset: mid, end: self.end },
                ),
            )
        } else {
            None
        }
    }
}

/// Decodes a name: its length in bytes, then its bytes as text.
pub fn decode_name<'a>(ctx: InputContext<'a>) -> (r: Option<(InputContext<'a>, String)>)
    requires
        ctx.wf(),
    ensures
        ctx.gives(r, parse_name(ctx.input@, ctx.offset as int, ctx.end as int)),
{
    let (ctx1, n) = ctx.read_leb128()?;
    let (ctx2, bytes) = ctx1.read_bytes(n as usize)?;
    Some((ctx2, string_from_utf8_lossy(bytes)))
}

/// Decodes a vector of bytes: their number, then the bytes.
pub fn decode_byte_vec<'a>(ctx: InputContext<'a>) -> (r: Option<(InputContext<'a>, Vec<u8>)>)
    requires
        ctx.wf(),
    ensures
        ctx.gives(r, parse_byte_vec(ctx.input@, ctx.offset as int, ctx.end as int)),
{
    let (ctx1, n) = ctx.read_leb128()?;
    let (ctx2, bytes) = ctx1.read_bytes(n as usize)?;
    let v = slice_to_vec(bytes);
    assert(v.deep_view() =~= v@);
    Some((ctx2, v))
}

/// A part of the format that stands in vectors: what it decodes to, and its
/// decoder.
pub trait Decode: DeepView + Sized {
    /// The model of the item at `pos`, and the position behind it.
    spec fn parse(s: Seq<u8>, pos: int, end: int) -> Parsed<Self::V>;

    fn decode<'a>(ctx: InputContext<'a>) -> (r: Option<(InputContext<'a>, Self)>)
        requires
            ctx.wf(),
        ensures
            ctx.gives(r, Self::parse(ctx.input@, ctx.offset as int, ctx.end as int)),
    ;
}

/// `n` items one after the other from `pos`.
pub open spec fn parse_items<T: Decode>(s: Seq<u8>, pos: int, end: int, n: nat) -> Parsed<Seq<T::V>>
    decreases n,
{
    if n == 0 {
        Some((Seq::empty(), pos))
    } else {
        match T::parse(s, pos, end) {
            Some((x, p)) => match parse_items::<T>(s, p, end, (n - 1) as nat) {
                Some((xs, q)) => Some((seq![x] + xs, q)),
                None => None,
            },
            None => None,
        }
    }
}

/// A vector: the number of its items as LEB128, then the items.
pub open spec fn parse_vec<T: Decode>(s: Seq<u8>, pos: int, end: int) -> Parsed<Seq<T::V>> {
    match parse_leb128(s, pos, end) {
        Some((n, p)) => parse_items::<T>(s, p, end, n as nat),
        None => None,
    }
}

/// Decodes a vector: the number of its items, then the items.
pub fn decode_vec<'a, T: Decode>(ctx: InputContext<'a>) -> (r: Option<(InputContext<'a>, Vec<T>)>)
    requires
        ctx.wf(),
    ensures
        ctx.gives(r, parse_vec::<T>(ctx.input@, ctx.offset as int, ctx.end as int)),
{
    let (ctx1, n) = ctx.read_leb128()?;
    decode_items::<T>(ctx1, n)
}

/// Decodes `n` items, one after the other.
pub fn decode_items<'a, T: Decode>(ctx: InputContext<'a>, n: u32) -> (r: Option<
    (InputContext<'a>, Vec<T>),
>)
    requires
        ctx.wf(),
    ensures
        ctx.gives(r, parse_items::<T>(ctx.input@, ctx.offset as int, ctx.end as int, n as nat)),
{
    let ghost s = ctx.input@;
    let ghost end = ctx.end as int;
    let ghost whole = parse_items::<T>(s, ctx.offset as int, end, n as nat);
    let mut items: Vec<T> = Vec::new();
    let mut cur = ctx;
    let mut k: u32 = 0;
    assert(items.deep_view() =~= Seq::<T::V>::empty());
    proof {
        match whole {
            Some((xs, q)) => {
                assert(items.deep_view() + xs =~= xs);
            },
            None => {},
        }
    }
    while k < n
        invariant
            k <= n,
            cur.wf(),
            cur.input == ctx.input,
            cur.end == ctx.end,
            ctx.offset <= cur.offset,
            s == ctx.input@,
            end == ctx.end as int,
            items@.len() == k,
            whole == parse_items::<T>(s, ctx.offset as int, end, n as nat),
            whole == match parse_items::<T>(s, cur.offset as int, end, (n - k) as nat) {
                Some((xs, q)) => Some((items.deep_view() + xs, q)),
                None => None,
            },
        decreases n - k,
    {
        let ghost before = items.deep_view();
        match T::decode(cur) {
            Some((next, item)) => {
                items.push(item);
                proof {
                    let x = item.deep_view();
                    assert(items.deep_view() =~= before.push(x));
                    match parse_items::<T>(s, next.offset as int, end, (n - k - 1) as nat) {
                        Some((xs, q)) => {
                            assert(before + (seq![x] + xs) =~= before.push(x) + xs);
                        },
                        None => {},
                    }
                }
                cur = next;
                k += 1;
            },
            None => {
                assert(parse_items::<T>(s, cur.offset as int, end, (n - k) as nat) is None);
                return None;
            },
        }
    }
    proof {
        assert(items.deep_view() + Seq::<T::V>::empty() =~= items.deep_view());
    }
    Some((cur, items))
}

impl Decode for u32 {
    open spec fn parse(s: Seq<u8>, pos: int, end: int) -> Parsed<u32> {
        parse_leb128(s, pos, end)
    }

    fn decode<'a>(ctx: InputContext<'a>) -> (r: Option<(InputContext<'a>, u32)>) {
        ctx.read_leb128()
    }
}

/// A value type: one byte.
pub open spec fn parse_valtype(s: Seq<u8>, pos: int, end: int) -> Parsed<ValueType> {
    match parse_u8(s, pos, end) {
        Some((b, p)) => if b == 0x7F {
            Some((ValueType::NumType(NumType::I32), p))
        } else if b == 0x7E {
            Some((ValueType::NumType(NumType::I64), p))
        } else if b == 0x7D {
            Some((ValueType::NumType(NumType::F32), p))
        } else if b == 0x7C {
            Some((ValueType::NumType(NumType::F64), p))
        } else {
            None
        },
        None => None,
    }
}

/// Decodes a value type.
pub fn decode_valtype<'a>(ctx: InputContext<'a>) -> (r: Option<(InputContext<'a>, ValueType)>)
    requires
        ctx.wf(),
    ensures
        ctx.gives(r, parse_valtype(ctx.input@, ctx.offset as int, ctx.end as int)),
{
    let (ctx, id) = ctx.read_u8()?;
    match id {
        0x7F => Some((ctx, ValueType::NumType(NumType::I32))),
        0x7E => Some((ctx, ValueType::NumType(NumType::I64))),
        0x7D => Some((ctx, ValueType::NumType(NumType::F32))),
        0x7C => Some((ctx, ValueType::NumType(NumType::F64))),
        _ => None,
    }
}

impl Decode for ValueType {
    open spec fn parse(s: Seq<u8>, pos: int, end: int) -> Parsed<ValueType> {
        parse_valtype(s, pos, end)
    }

    fn decode<'a>(ctx: InputContext<'a>) -> (r: Option<(InputContext<'a>, ValueType)>) {
        decode_valtype(ctx)
    }
}

/// A reference type: one byte.
pub open spec fn parse_reftype(s: Seq<u8>, pos: int, end: int) -> Parsed<Reftype> {
    match parse_u8(s, pos, end) {
        Some((b, p)) => if b == 0x70 {
            Some((Reftype::Func, p))
        } else if b == 0x6F {
            Some((Reftype::Extern, p))
        } else {
            None
        },
        None => None,
    }
}

/// Limits: a flag byte, the minimum, and with flag 1 the maximum.
pub open spec fn parse_limits(s: Seq<u8>, pos: int, end: int) -> Parsed<Limits> {
    match parse_u8(s, pos, end) {
        Some((t, p)) => if t == 0 {
            match parse_leb128(s, p, end) {
                Some((min, q)) => Some((Limits { min, max: None }, q)),
                None => None,
            }
        } else if t == 1 {
            match parse_leb128(s, p, end) {
                Some((min, q)) => match parse_leb128(s, q, end) {
                    Some((max, r)) => Some((Limits { min, max: Some(max) }, r)),
                    None => None,
                },
                None => None,
            }
        } else {
            None
        },
        None => None,
    }
}

/// A table: its reference type and its limits.
pub open spec fn parse_table(s: Seq<u8>, pos: int, end: int) -> Parsed<Table> {
    match parse_reftype(s, pos, end) {
        Some((reftype, p)) => match parse_limits(s, p, end) {
            Some((limits, q)) => Some((Table { reftype, limits }, q)),
            None => None,
        },
        None => None,
    }
}

/// A memory: a flag byte, the minimum with the place it was read from, and
/// with flag 1 the maximum.
pub open spec fn parse_memory(s: Seq<u8>, pos: int, end: int) -> Parsed<Memory> {
    match parse_u8(s, pos, end) {
        Some((t, p)) => match parse_leb128(s, p, end) {
            Some((min, q)) => {
                let min = Value { value: min, start_offset: p as usize, end_offset: q as usize };
                if t == 0 {
                    Some((Memory { min, max: None }, q))
                } else if t == 1 {
                    match parse_leb128(s, q, end) {
                        Some((max, r)) => Some((Memory { min, max: Some(max) }, r)),
                        None => None,
                    }
                } else {
                    None
                }
            },
            None => None,
        },
        None => None,
    }
}

/// A global's type: its value type and a byte that is 1 where it is mutable.
pub open spec fn parse_global_type(s: Seq<u8>, pos: int, end: int) -> Parsed<GlobalType> {
    match parse_valtype(s, pos, end) {
        Some((valtype, p)) => match parse_u8(s, p, end) {
            Some((m, q)) => Some((GlobalType { valtype, mutable: m == 1 }, q)),
            None => None,
        },
        None => None,
    }
}

/// Decodes a reference type.
pub fn decode_reftype<'a>(ctx: InputContext<'a>) -> (r: Option<(InputContext<'a>, Reftype)>)
    requires
        ctx.wf(),
    ensures
        match parse_reftype(ctx.input@, ctx.offset as int, ctx.end as int) {
            Some((v, next)) => r == Some(
                (InputContext { input: ctx.input, offset: next as usize, end: ctx.end }, v),
            ) && ctx.offset <= next <= ctx.end,
            None => r is None,
        },
{
    let (ctx, t) = ctx.read_u8()?;
    match t {
        0x70 => Some((ctx, Reftype::Func)),
        0x6F => Some((ctx, Reftype::Extern)),
        _ => None,
    }
}

/// Decodes limits.
pub fn decode_limits<'a>(ctx: InputContext<'a>) -> (r: Option<(InputContext<'a>, Limits)>)
    requires
        ctx.wf(),
    ensures
        match parse_limits(ctx.input@, ctx.offset as int, ctx.end as int) {
            Some((v, next)) => r == Some(
                (InputContext { input: ctx.input, offset: next as usize, end: ctx.end }, v),
            ) && ctx.offset <= next <= ctx.end,
            None => r is None,
        },
{
    let (ctx, t) = ctx.read_u8()?;
    match t {
        0x00 => {
            let (ctx, min) = ctx.read_leb128()?;
            Some((ctx, Limits { min, max: None }))
        },
        0x01 => {
            let (ctx, min) = ctx.read_leb128()?;
            let (ctx, max) = ctx.read_leb128()?;
            Some((ctx, Limits { min, max: Some(max) }))
        },
        _ => None,
    }
}

/// Decodes a table.
pub fn decode_table<'a>(ctx: InputContext<'a>) -> (r: Option<(InputContext<'a>, Table)>)
    requires
        ctx.wf(),
    ensures
        ctx.gives(r, parse_table(ctx.input@, ctx.offset as int, ctx.end as int)),
{
    let (ctx, reftype) = decode_reftype(ctx)?;
    let (ctx, limits) = decode_limits(ctx)?;
    Some((ctx, Table { reftype, limits }))
}

impl Decode for Table {
    open spec fn parse(s: Seq<u8>, pos: int, end: int) -> Parsed<Table> {
        parse_table(s, pos, end)
    }

    fn decode<'a>(ctx: InputContext<'a>) -> (r: Option<(InputContext<'a>, Table)>) {
        decode_table(ctx)
    }
}

/// Decodes a memory.
pub fn decode_memory<'a>(ctx: InputContext<'a>) -> (r: Option<(InputContext<'a>, Memory)>)
    requires
        ctx.wf(),
    ensures
        ctx.gives(r, parse_memory(ctx.input@, ctx.offset as int, ctx.end as int)),
{
    let (ctx, t) = ctx.read_u8()?;
    let start_offset = ctx.offset;
    let (ctx, min) = ctx.read_leb128()?;
    let end_offset = ctx.offset;
    let min = Value { start_offset, value: min, end_offset };
    match t {
        0 => Some((ctx, Memory { min, max: None })),
        1 => {
            let (ctx, max) = ctx.read_leb128()?;
            Some((ctx, Memory { min, max: Some(max) }))
        },
        _ => None,
    }
}

impl Decode for Memory {
    open spec fn parse(s: Seq<u8>, pos: int, end: int) -> Parsed<Memory> {
        parse_memory(s, pos, end)
    }

    fn decode<'a>(ctx: InputContext<'a>) -> (r: Option<(InputContext<'a>, Memory)>) {
        decode_memory(ctx)
    }
}

/// Decodes the type of a global.
pub fn decode_global_type<'a>(ctx: InputContext<'a>) -> (r: Option<(InputContext<'a>, GlobalType)>)
    requires
        ctx.wf(),
    ensures
        match parse_global_type(ctx.input@, ctx.offset as int, ctx.end as int) {
            Some((v, next)) => r == Some(
                (InputContext { input: ctx.input, offset: next as usize, end: ctx.end }, v),
            ) && ctx.offset <= next <= ctx.end,
            None => r is None,
        },
{
    let (ctx, valtype) = decode_valtype(ctx)?;
    let (ctx, mutable) = ctx.read_u8()?;
    Some((ctx, GlobalType { valtype, mutable: mutable == 1 }))
}

/// A run of locals: how many, and their type.
pub open spec fn parse_code_local(s: Seq<u8>, pos: int, end: int) -> Parsed<CodeLocal> {
    match parse_leb128(s, pos, end) {
        Some((count, p)) => match parse_valtype(s, p, end) {
            Some((value_type, q)) => Some((CodeLocal { count, value_type }, q)),
            None => None,
        },
        None => None,
    }
}

/// Decodes a run of locals.
pub fn decode_code_local<'a>(ctx: InputContext<'a>) -> (r: Option<(InputContext<'a>, CodeLocal)>)
    requires
        ctx.wf(),
    ensures
        ctx.gives(r, parse_code_local(ctx.input@, ctx.offset as int, ctx.end as int)),
{
    let (ctx, count) = ctx.read_leb128()?;
    let (ctx, value_type) = decode_valtype(ctx)?;
    Some((ctx, CodeLocal { count, value_type }))
}

impl Decode for CodeLocal {
    open spec fn parse(s: Seq<u8>, pos: int, end: int) -> Parsed<CodeLocal> {
        parse_code_local(s, pos, end)
    }

    fn decode<'a>(ctx: InputContext<'a>) -> (r: Option<(InputContext<'a>, CodeLocal)>) {
        decode_code_local(ctx)
    }
}

/// A function type: the byte `0x60`, the parameter types, the result types.
pub open spec fn parse_type(s: Seq<u8>, pos: int, end: int) -> Parsed<TypeV> {
    match parse_u8(s, pos, end) {
        Some((b, p)) => if b == 0x60 {
            match parse_vec::<ValueType>(s, p, end) {
                Some((params, q)) => match parse_vec::<ValueType>(s, q, end) {
                    Some((results, r)) => Some((TypeV { params, results }, r)),
                    None => None,
                },
                None => None,
            }
        } else {
            None
        },
        None => None,
    }
}

/// Decodes a function type.
pub fn decode_type<'a>(ctx: InputContext<'a>) -> (r: Option<(InputContext<'a>, Type)>)
    requires
        ctx.wf(),
    ensures
        ctx.gives(r, parse_type(ctx.input@, ctx.offset as int, ctx.end as int)),
{
    let (ctx, b) = ctx.read_u8()?;
    if b != 0x60 {
        return None;
    }
    let (ctx, params) = decode_vec::<ValueType>(ctx)?;
    let (ctx, results) = decode_vec::<ValueType>(ctx)?;
    proof {
        lemma_plain_view(params);
        lemma_plain_view(results);
    }
    Some((ctx, Type { params, results }))
}

impl Decode for Type {
    open spec fn parse(s: Seq<u8>, pos: int, end: int) -> Parsed<TypeV> {
        parse_type(s, pos, end)
    }

    fn decode<'a>(ctx: InputContext<'a>) -> (r: Option<(InputContext<'a>, Type)>) {
        decode_type(ctx)
    }
}

/// An import: the module's name, the item's name, a byte for the kind, and what
/// the kind holds.
pub open spec fn parse_import(s: Seq<u8>, pos: int, end: int) -> Parsed<ImportV> {
    match parse_name(s, pos, end) {
        Some((module, p)) => match parse_name(s, p, end) {
            Some((name, q)) => match parse_u8(s, q, end) {
                Some((t, r)) => match parse_import_type(s, t, r, end) {
                    Some((import_type, u)) => Some((ImportV { module, name, import_type }, u)),
                    None => None,
                },
                None => None,
            },
            None => None,
        },
        None => None,
    }
}

/// What an import of kind `t` holds.
pub open spec fn parse_import_type(s: Seq<u8>, t: u8, pos: int, end: int) -> Parsed<ImportType> {
    if t == 0 {
        match parse_leb128(s, pos, end) {
            Some((typeidx, p)) => Some((ImportType::Func(typeidx), p)),
            None => None,
        }
    } else if t == 1 {
        match parse_table(s, pos, end) {
            Some((table, p)) => Some((ImportType::Table(table), p)),
            None => None,
        }
    } else if t == 2 {
        match parse_memory(s, pos, end) {
            Some((memory, p)) => Some((ImportType::Memory(memory), p)),
            None => None,
        }
    } else if t == 3 {
        match parse_global_type(s, pos, end) {
            Some((global_type, p)) => Some((ImportType::Global(global_type), p)),
            None => None,
        }
    } else {
        None
    }
}

/// Decodes an import.
pub fn decode_import<'a>(ctx: InputContext<'a>) -> (r: Option<(InputContext<'a>, Import)>)
    requires
        ctx.wf(),
    ensures
        ctx.gives(r, parse_import(ctx.input@, ctx.offset as int, ctx.end as int)),
{
    let (ctx, module) = decode_name(ctx)?;
    let (ctx, name) = decode_name(ctx)?;
    let (ctx, descr_t) = ctx.read_u8()?;
    let (ctx, import_type) = match descr_t {
        0x00 => {
            let (ctx, typeidx) = ctx.read_leb128()?;
            (ctx, ImportType::Func(typeidx))
        },
        0x01 => {
            let (ctx, table) = decode_table(ctx)?;
            (ctx, ImportType::Table(table))
        },
        0x02 => {
            let (ctx, memory) = decode_memory(ctx)?;
            (ctx, ImportType::Memory(memory))
        },
        0x03 => {
            let (ctx, global_type) = decode_global_type(ctx)?;
            (ctx, ImportType::Global(global_type))
        },
        _ => {
            return None;
        },
    };
    Some((ctx, Import { module, name, import_type }))
}

impl Decode for Import {
    open spec fn parse(s: Seq<u8>, pos: int, end: int) -> Parsed<ImportV> {
        parse_import(s, pos, end)
    }

    fn decode<'a>(ctx: InputContext<'a>) -> (r: Option<(InputContext<'a>, Import)>) {
        decode_import(ctx)
    }
}

/// What is exported: a byte for the kind, then the index.
pub open spec fn parse_export_desc(s: Seq<u8>, pos: int, end: int) -> Parsed<ExportDescr> {
    match parse_u8(s, pos, end) {
        Some((t, p)) => match parse_leb128(s, p, end) {
            Some((idx, q)) => if t == 0 {
                Some((ExportDescr::Func(idx), q))
            } else if t == 1 {
                Some((ExportDescr::Table(idx), q))
            } else if t == 2 {
                Some((ExportDescr::Mem(idx), q))
            } else if t == 3 {
                Some((ExportDescr::Global(idx), q))
            } else {
                None
            },
            None => None,
        },
        None => None,
    }
}

/// An export: its name and what is exported.
pub open spec fn parse_export(s: Seq<u8>, pos: int, end: int) -> Parsed<ExportV> {
    match parse_name(s, pos, end) {
        Some((name, p)) => match parse_export_desc(s, p, end) {
            Some((descr, q)) => Some((ExportV { name, descr }, q)),
            None => None,
        },
        None => None,
    }
}

/// Decodes what an export stands for.
pub fn decode_export_desc<'a>(ctx: InputContext<'a>) -> (r: Option<(InputContext<'a>, ExportDescr)>)
    requires
        ctx.wf(),
    ensures
        match parse_export_desc(ctx.input@, ctx.offset as int, ctx.end as int) {
            Some((v, next)) => r == Some(
                (InputContext { input: ctx.input, offset: next as usize, end: ctx.end }, v),
            ) && ctx.offset <= next <= ctx.end,
            None => r is None,
        },
{
    let (ctx, t) = ctx.read_u8()?;
    let (ctx, idx) = ctx.read_leb128()?;
    match t {
        0x00 => Some((ctx, ExportDescr::Func(idx))),
        0x01 => Some((ctx, ExportDescr::Table(idx))),
        0x02 => Some((ctx, ExportDescr::Mem(idx))),
        0x03 => Some((ctx, ExportDescr::Global(idx))),
        _ => None,
    }
}

/// Decodes an export.
pub fn decode_export<'a>(ctx: InputContext<'a>) -> (r: Option<(InputContext<'a>, Export)>)
    requires
        ctx.wf(),
    ensures
        ctx.gives(r, parse_export(ctx.input@, ctx.offset as int, ctx.end as int)),
{
    let (ctx, name) = decode_name(ctx)?;
    let (ctx, descr) = decode_export_desc(ctx)?;
    Some((ctx, Export { name, descr }))
}

impl Decode for Export {
    open spec fn parse(s: Seq<u8>, pos: int, end: int) -> Parsed<ExportV> {
        parse_export(s, pos, end)
    }

    fn decode<'a>(ctx: InputContext<'a>) -> (r: Option<(InputContext<'a>, Export)>) {
        decode_export(ctx)
    }
}

/// A block type: `0x40` for none, the byte of a value type, or the index of a
/// type as a signed LEB128 number that is not negative.
pub open spec fn parse_blocktype(s: Seq<u8>, pos: int, end: int) -> Parsed<BlockType> {
    match parse_u8(s, pos, end) {
        Some((b, p)) => if b == 0x40 {
            Some((BlockType::Empty, p))
        } else {
            match parse_valtype(s, pos, end) {
                Some((t, q)) => Some((BlockType::ValueType(t), q)),
                None => match parse_leb128_signed(s, pos, end) {
                    Some((v, q)) => if 0 <= v <= u32::MAX {
                        Some((BlockType::Typeidx(v as u32), q))
                    } else {
                        None
                    },
                    None => None,
                },
            }
        },
        None => None,
    }
}

/// Decodes a block type.
pub fn decode_blocktype<'a>(ctx: InputContext<'a>) -> (r: Option<(InputContext<'a>, BlockType)>)
    requires
        ctx.wf(),
    ensures
        ctx.gives_value(r, parse_blocktype(ctx.input@, ctx.offset as int, ctx.end as int)),
{
    let (_, next) = ctx.peak_u8()?;
    if next == 0x40 {
        let (ctx, _) = ctx.read_u8()?;
        Some((ctx, BlockType::Empty))
    } else {
        match decode_valtype(ctx) {
            Some((ctx, valtype)) => Some((ctx, BlockType::ValueType(valtype))),
            None => {
                let (ctx, typeidx) = ctx.read_leb128_signed()?;
                if 0 <= typeidx && typeidx <= 0xffff_ffff {
                    Some((ctx, BlockType::Typeidx(typeidx as u32)))
                } else {
                    None
                }
            },
        }
    }
}

/// The instruction whose opcode `op` was read just before `pos`, where it is
/// not one that owns a body: its immediates follow at `pos`.
pub open spec fn parse_leaf(s: Seq<u8>, op: u8, pos: int, end: int) -> Parsed<InstrV> {
    if plain_instr(op) is Some {
        Some((InstrV::Leaf(plain_instr(op).unwrap()), pos))
    } else if index_instr(op, 0) is Some {
        match parse_leb128(s, pos, end) {
            Some((x, p)) => Some((InstrV::Leaf(index_instr(op, x).unwrap()), p)),
            None => None,
        }
    } else if op == 0x10 {
        match parse_leb128(s, pos, end) {
            Some((x, p)) => Some(
                (
                    InstrV::Leaf(
                        Instr::call(
                            Value { value: x, start_offset: pos as usize, end_offset: p as usize },
                        ),
                    ),
                    p,
                ),
            ),
            None => None,
        }
    } else if op == 0x11 {
        match parse_leb128(s, pos, end) {
            Some((x, p)) => match parse_leb128(s, p, end) {
                Some((y, q)) => Some((InstrV::Leaf(Instr::call_indirect(x, y)), q)),
                None => None,
            },
            None => None,
        }
    } else if 0x28 <= op <= 0x3e {
        match parse_leb128(s, pos, end) {
            Some((a, p)) => match parse_leb128(s, p, end) {
                Some((b, q)) => Some(
                    (
                        InstrV::Leaf(
                            memory_instr(
                                op,
                                Value { value: a, start_offset: pos as usize, end_offset: p as usize },
                                b,
                            ).unwrap(),
                        ),
                        q,
                    ),
                ),
                None => None,
            },
            None => None,
        }
    } else if op == 0x3f || op == 0x40 {
        match parse_u8(s, pos, end) {
            Some((m, p)) => Some(
                (InstrV::Leaf(if op == 0x3f { Instr::memory_size(m) } else { Instr::memory_grow(m) }), p),
            ),
            None => None,
        }
    } else if op == 0x41 || op == 0x42 {
        match parse_leb128_signed(s, pos, end) {
            Some((v, p)) => Some(
                (InstrV::Leaf(if op == 0x41 { Instr::i32_const(v) } else { Instr::i64_const(v) }), p),
            ),
            None => None,
        }
    } else if op == 0x43 {
        match parse_u32(s, pos, end) {
            Some((bits, p)) => Some((InstrV::Leaf(Instr::f32_const(bits)), p)),
            None => None,
        }
    } else if op == 0x44 {
        match parse_u64(s, pos, end) {
            Some((bits, p)) => Some((InstrV::Leaf(Instr::f64_const(bits)), p)),
            None => None,
        }
    } else if op == 0x0e {
        match parse_vec::<u32>(s, pos, end) {
            Some((labels, p)) => match parse_leb128(s, p, end) {
                Some((default, q)) => Some((InstrV::BrTable(labels, default), q)),
                None => None,
            },
            None => None,
        }
    } else if op == 0xfc {
        match parse_u8(s, pos, end) {
            Some((sub, p)) => if sub == 10 {
                match parse_u8(s, p, end) {
                    Some((a, q)) => match parse_u8(s, q, end) {
                        Some((b, r)) => Some((InstrV::Leaf(Instr::memory_copy(a, b)), r)),
                        None => None,
                    },
                    None => None,
                }
            } else if sub == 11 {
                match parse_u8(s, p, end) {
                    Some((a, q)) => Some((InstrV::Leaf(Instr::memory_fill(a)), q)),
                    None => None,
                }
            } else {
                None
            },
            None => None,
        }
    } else {
        None
    }
}

/// The structured instruction of opcode `op`.
pub open spec fn structured(op: u8, t: BlockType, body: ExprV) -> InstrV {
    if op == 0x02 {
        InstrV::Block(t, body)
    } else if op == 0x03 {
        InstrV::Loop(t, body)
    } else {
        InstrV::If(t, body)
    }
}

/// The instruction at `pos` with the bytes it covers: an opcode, then either a
/// block type and a body, or the immediates.
pub open spec fn parse_instr(s: Seq<u8>, pos: int, end: int) -> Parsed<Value<InstrV>>
    decreases end - pos, 0int,
{
    match parse_u8(s, pos, end) {
        Some((op, p)) => if op == 0x02 || op == 0x03 || op == 0x04 {
            match parse_blocktype(s, p, end) {
                Some((t, q)) => if q <= pos || q > end {
                    None
                } else {
                    match parse_expr(s, q, end) {
                        Some((body, r)) => Some(
                            (
                                Value {
                                    value: structured(op, t, body),
                                    start_offset: pos as usize,
                                    end_offset: r as usize,
                                },
                                r,
                            ),
                        ),
                        None => None,
                    }
                },
                None => None,
            }
        } else {
            match parse_leaf(s, op, p, end) {
                Some((i, q)) => Some(
                    (Value { value: i, start_offset: pos as usize, end_offset: q as usize }, q),
                ),
                None => None,
            }
        },
        None => None,
    }
}

/// The instructions from `pos` up to the first `end`, which is the last of
/// them.
pub open spec fn parse_instrs(s: Seq<u8>, pos: int, end: int) -> Parsed<Seq<Value<InstrV>>>
    decreases end - pos, 1int,
{
    match parse_instr(s, pos, end) {
        Some((node, p)) => if node.value == InstrV::Leaf(Instr::end) {
            Some((seq![node], p))
        } else if p <= pos || p > end {
            None
        } else {
            match parse_instrs(s, p, end) {
                Some((rest, q)) => Some((seq![node] + rest, q)),
                None => None,
            }
        },
        None => None,
    }
}

/// An expression: the instructions up to the first `end`, with the bytes they
/// cover.
pub open spec fn parse_expr(s: Seq<u8>, pos: int, end: int) -> Parsed<ExprV>
    decreases end - pos, 2int,
{
    match parse_instrs(s, pos, end) {
        Some((nodes, p)) => Some(
            (Value { value: nodes, start_offset: pos as usize, end_offset: p as usize }, p),
        ),
        None => None,
    }
}

fn decode_leaf<'a>(ctx: InputContext<'a>, id: u8) -> (r: Option<(InputContext<'a>, Instr)>)
    requires
        ctx.wf(),
    ensures
        ctx.gives(r, parse_leaf(ctx.input@, id, ctx.offset as int, ctx.end as int)),
{
    match decode_plain(id) {
        Some(i) => {
            return Some((ctx, i));
        },
        None => {},
    }
    if is_index_op(id) {
        let (ctx1, x) = ctx.read_leb128()?;
        let i = decode_index(id, x)?;
        return Some((ctx1, i));
    }
    if id == 0x10 {
        let start_offset = ctx.offset;
        let (ctx1, x) = ctx.read_leb128()?;
        let arg = Value { start_offset, value: x, end_offset: ctx1.offset };
        return Some((ctx1, Instr::call(arg)));
    }
    if id == 0x11 {
        let (ctx1, x) = ctx.read_leb128()?;
        let (ctx2, y) = ctx1.read_leb128()?;
        return Some((ctx2, Instr::call_indirect(x, y)));
    }
    if is_memory_op(id) {
        let start_offset = ctx.offset;
        let (ctx1, a) = ctx.read_leb128()?;
        let arg = Value { start_offset, value: a, end_offset: ctx1.offset };
        let (ctx2, b) = ctx1.read_leb128()?;
        let i = decode_memory_instr(id, arg, b)?;
        return Some((ctx2, i));
    }
    if id == 0x3f || id == 0x40 {
        let (ctx1, m) = ctx.read_u8()?;
        let i = if id == 0x3f {
            Instr::memory_size(m)
        } else {
            Instr::memory_grow(m)
        };
        return Some((ctx1, i));
    }
    if id == 0x41 || id == 0x42 {
        let (ctx1, v) = ctx.read_leb128_signed()?;
        let i = if id == 0x41 {
            Instr::i32_const(v)
        } else {
            Instr::i64_const(v)
        };
        return Some((ctx1, i));
    }
    if id == 0x43 {
        let (ctx1, bits) = ctx.read_u32()?;
        return Some((ctx1, Instr::f32_const(bits)));
    }
    if id == 0x44 {
        let (ctx1, bits) = ctx.read_u64()?;
        return Some((ctx1, Instr::f64_const(bits)));
    }
    if id == 0x0e {
        let (ctx1, labels) = decode_vec::<u32>(ctx)?;
        let (ctx2, default) = ctx1.read_leb128()?;
        proof {
            lemma_plain_view(labels);
        }
        return Some((ctx2, Instr::br_table(labels, default)));
    }
    if id == 0xfc {
        let (ctx1, sub) = ctx.read_u8()?;
        if sub == 10 {
            let (ctx2, a) = ctx1.read_u8()?;
            let (ctx3, b) = ctx2.read_u8()?;
            return Some((ctx3, Instr::memory_copy(a, b)));
        }
        if sub == 11 {
            let (ctx2, a) = ctx1.read_u8()?;
            return Some((ctx2, Instr::memory_fill(a)));
        }
        return None;
    }
    None
}

/// Decodes an instruction, with its body where it has one.
pub fn decode_instr<'a>(ctx: InputContext<'a>) -> (r: Option<(InputContext<'a>, Value<Instr>)>)
    requires
        ctx.wf(),
    ensures
        ctx.gives(r, parse_instr(ctx.input@, ctx.offset as int, ctx.end as int)),
        r matches Some((next, _)) ==> next.offset > ctx.offset,
    decreases ctx.end - ctx.offset, 0int,
{
    let start_offset = ctx.offset;
    let (ctx1, id) = ctx.read_u8()?;
    if id == 0x02 || id == 0x03 || id == 0x04 {
        let (ctx2, block_type) = decode_blocktype(ctx1)?;
        let (ctx3, body) = decode_expr(ctx2)?;
        let end_offset = ctx3.offset;
        let value = if id == 0x02 {
            Instr::Block(block_type, body)
        } else if id == 0x03 {
            Instr::Loop(block_type, body)
        } else {
            Instr::If(block_type, body)
        };
        proof {
            lemma_instr_view(value);
        }
        return Some((ctx3, Value { start_offset, value, end_offset }));
    }
    let (ctx2, value) = decode_leaf(ctx1, id)?;
    let end_offset = ctx2.offset;
    Some((ctx2, Value { start_offset, value, end_offset }))
}

/// Decodes an expression: instructions up to the `end` that closes it.
pub fn decode_expr<'a>(ctx: InputContext<'a>) -> (r: Option<(InputContext<'a>, Expr)>)
    requires
        ctx.wf(),
    ensures
        ctx.gives(r, parse_expr(ctx.input@, ctx.offset as int, ctx.end as int)),
    decreases ctx.end - ctx.offset, 1int,
{
    let start_offset = ctx.offset;
    let ghost s = ctx.input@;
    let ghost end = ctx.end as int;
    let ghost whole = parse_instrs(s, ctx.offset as int, end);
    let mut cur = ctx;
    let mut vec: Vec<Value<Instr>> = Vec::new();
    loop
        invariant
            cur.wf(),
            cur.input == ctx.input,
            cur.end == ctx.end,
            ctx.offset <= cur.offset,
            start_offset == ctx.offset,
            s == ctx.input@,
            end == ctx.end as int,
            whole == parse_instrs(s, ctx.offset as int, end),
            whole == match parse_instrs(s, cur.offset as int, end) {
                Some((rest, q)) => Some((vec.deep_view() + rest, q)),
                None => None,
            },
        decreases cur.end - cur.offset,
    {
        let ghost before = vec.deep_view();
        match decode_instr(cur) {
            Some((next, node)) => {
                let is_end = match node.value {
                    Instr::end => true,
                    _ => false,
                };
                let ghost x = node.deep_view();
                vec.push(node);
                proof {
                    assert(vec.deep_view() =~= before.push(x));
                    assert(is_end <==> x.value == InstrV::Leaf(Instr::end));
                    if is_end {
                        assert(before + seq![x] =~= before.push(x));
                    } else {
                        match parse_instrs(s, next.offset as int, end) {
                            Some((rest, q)) => {
                                assert(before + (seq![x] + rest) =~= before.push(x) + rest);
                            },
                            None => {},
                        }
                    }
                }
                cur = next;
                if is_end {
                    let end_offset = cur.offset;
                    let expr = Value { start_offset, value: vec, end_offset };
                    return Some((cur, expr));
                }
            },
            None => {
                return None;
            },
        }
    }
}

/// A global: its type and the expression that initialises it.
pub open spec fn parse_global(s: Seq<u8>, pos: int, end: int) -> Parsed<GlobalV> {
    match parse_global_type(s, pos, end) {
        Some((global_type, p)) => match parse_expr(s, p, end) {
            Some((expr, q)) => Some((GlobalV { global_type, expr }, q)),
            None => None,
        },
        None => None,
    }
}

/// Decodes a global.
pub fn decode_global<'a>(ctx: InputContext<'a>) -> (r: Option<(InputContext<'a>, Global)>)
    requires
        ctx.wf(),
    ensures
        ctx.gives(r, parse_global(ctx.input@, ctx.offset as int, ctx.end as int)),
{
    let (ctx, global_type) = decode_global_type(ctx)?;
    let (ctx, expr) = decode_expr(ctx)?;
    Some((ctx, Global { global_type, expr }))
}

impl Decode for Global {
    open spec fn parse(s: Seq<u8>, pos: int, end: int) -> Parsed<GlobalV> {
        parse_global(s, pos, end)
    }

    fn decode<'a>(ctx: InputContext<'a>) -> (r: Option<(InputContext<'a>, Global)>) {
        decode_global(ctx)
    }
}

/// An element segment. Only the active form with function indices is
/// decoded: the number 0, the offset expression, the indices.
pub open spec fn parse_element(s: Seq<u8>, pos: int, end: int) -> Parsed<ElementV> {
    match parse_leb128(s, pos, end) {
        Some((t, p)) => if t == 0 {
            match parse_expr(s, p, end) {
                Some((offset, q)) => match parse_vec::<u32>(s, q, end) {
                    Some((funcs, r)) => Some((ElementV::FuncActive(offset, funcs), r)),
                    None => None,
                },
                None => None,
            }
        } else {
            None
        },
        None => None,
    }
}

/// Decodes an element segment.
pub fn decode_element<'a>(ctx: InputContext<'a>) -> (r: Option<(InputContext<'a>, Element)>)
    requires
        ctx.wf(),
    ensures
        ctx.gives(r, parse_element(ctx.input@, ctx.offset as int, ctx.end as int)),
{
    let (ctx, t) = ctx.read_leb128()?;
    if t != 0 {
        return None;
    }
    let (ctx, expr) = decode_expr(ctx)?;
    let (ctx, elements) = decode_vec::<u32>(ctx)?;
    proof {
        lemma_plain_view(elements);
    }
    Some((ctx, Element::FuncActive(expr, elements)))
}

impl Decode for Element {
    open spec fn parse(s: Seq<u8>, pos: int, end: int) -> Parsed<ElementV> {
        parse_element(s, pos, end)
    }

    fn decode<'a>(ctx: InputContext<'a>) -> (r: Option<(InputContext<'a>, Element)>) {
        decode_element(ctx)
    }
}

/// A data segment: the number 0, an offset expression and the bytes for an
/// active one; the number 1 and the bytes for a passive one.
pub open spec fn parse_data(s: Seq<u8>, pos: int, end: int) -> Parsed<DataSegmentV> {
    match parse_leb128(s, pos, end) {
        Some((t, p)) => if t == 0 {
            match parse_expr(s, p, end) {
                Some((offset, q)) => match parse_byte_vec(s, q, end) {
                    Some((bytes, r)) => Some(
                        (
                            DataSegmentV {
                                offset: Some(offset),
                                bytes,
                                mode: DataSegmentMode::Active,
                            },
                            r,
                        ),
                    ),
                    None => None,
                },
                None => None,
            }
        } else if t == 1 {
            match parse_byte_vec(s, p, end) {
                Some((bytes, r)) => Some(
                    (DataSegmentV { offset: None, bytes, mode: DataSegmentMode::Passive }, r),
                ),
                None => None,
            }
        } else {
            None
        },
        None => None,
    }
}

/// Decodes a data segment.
pub fn decode_data<'a>(ctx: InputContext<'a>) -> (r: Option<(InputContext<'a>, DataSegment)>)
    requires
        ctx.wf(),
    ensures
        ctx.gives(r, parse_data(ctx.input@, ctx.offset as int, ctx.end as int)),
{
    let (ctx, t) = ctx.read_leb128()?;
    if t == 0 {
        let (ctx, expr) = decode_expr(ctx)?;
        let (ctx, bytes) = decode_byte_vec(ctx)?;
        proof {
            lemma_plain_view(bytes);
        }
        Some((ctx, DataSegment { mode: DataSegmentMode::Active, offset: Some(expr), bytes }))
    } else if t == 1 {
        let (ctx, bytes) = decode_byte_vec(ctx)?;
        proof {
            lemma_plain_view(bytes);
        }
        Some((ctx, DataSegment { mode: DataSegmentMode::Passive, offset: None, bytes }))
    } else {
        None
    }
}

impl Decode for DataSegment {
    open spec fn parse(s: Seq<u8>, pos: int, end: int) -> Parsed<DataSegmentV> {
        parse_data(s, pos, end)
    }

    fn decode<'a>(ctx: InputContext<'a>) -> (r: Option<(InputContext<'a>, DataSegment)>) {
        decode_data(ctx)
    }
}

/// A function body: its size in bytes, and within those bytes the runs of
/// locals and the instructions. What is left of the bytes is passed over.
pub open spec fn parse_code(s: Seq<u8>, pos: int, end: int) -> Parsed<CodeV> {
    match parse_leb128(s, pos, end) {
        Some((size, p)) => match parse_bytes(s, p, end, size as int) {
            Some((_, q)) => match parse_vec::<CodeLocal>(s, p, q) {
                Some((locals, r)) => match parse_expr(s, r, q) {
                    Some((body, _)) => Some(
                        (
                            CodeV {
                                size: Value {
                                    value: size,
                                    start_offset: pos as usize,
                                    end_offset: p as usize,
                                },
                                locals,
                                body,
                            },
                            q,
                        ),
                    ),
                    None => None,
                },
                None => None,
            },
            None => None,
        },
        None => None,
    }
}

/// Decodes the body of a function: its size, its locals and its instructions.
pub fn decode_code<'a>(ctx: InputContext<'a>) -> (r: Option<(InputContext<'a>, Code)>)
    requires
        ctx.wf(),
    ensures
        ctx.gives(r, parse_code(ctx.input@, ctx.offset as int, ctx.end as int)),
{
    let start_offset = ctx.offset;
    let (ctx1, size) = ctx.read_leb128()?;
    let end_offset = ctx1.offset;
    let (inner, after) = ctx1.split(size as usize)?;
    let size = Value { start_offset, value: size, end_offset };
    let (inner, locals) = decode_vec::<CodeLocal>(inner)?;
    let (_, body) = decode_expr(inner)?;
    proof {
        lemma_plain_view(locals);
    }
    Some((after, Code { size, locals, body }))
}

impl Decode for Code {
    open spec fn parse(s: Seq<u8>, pos: int, end: int) -> Parsed<CodeV> {
        parse_code(s, pos, end)
    }

    fn decode<'a>(ctx: InputContext<'a>) -> (r: Option<(InputContext<'a>, Code)>) {
        decode_code(ctx)
    }
}

/// `n` pairs of a function index and a name, put into `acc` one after the
/// other, so that a later pair replaces an earlier one of the same index.
pub open spec fn parse_name_pairs(
    s: Seq<u8>,
    pos: int,
    end: int,
    n: nat,
    acc: Map<u32, Seq<char>>,
) -> Parsed<Map<u32, Seq<char>>>
    decreases n,
{
    if n == 0 {
        Some((acc, pos))
    } else {
        match parse_leb128(s, pos, end) {
            Some((funcidx, p)) => match parse_name(s, p, end) {
                Some((name, q)) => parse_name_pairs(
                    s,
                    q,
                    end,
                    (n - 1) as nat,
                    acc.insert(funcidx, name),
                ),
                None => None,
            },
            None => None,
        }
    }
}

/// A name map: the number of its pairs, then the pairs.
pub open spec fn parse_namemap(s: Seq<u8>, pos: int, end: int) -> Parsed<Map<u32, Seq<char>>> {
    match parse_leb128(s, pos, end) {
        Some((n, p)) => parse_name_pairs(s, p, end, n as nat, Map::empty()),
        None => None,
    }
}

/// Decodes a name map.
pub fn decode_namemap<'a>(ctx: InputContext<'a>) -> (r: Option<
    (InputContext<'a>, HashMap<u32, String>),
>)
    requires
        ctx.wf(),
    ensures
        match parse_namemap(ctx.input@, ctx.offset as int, ctx.end as int) {
            Some((v, next)) => r matches Some((c, m)) && names_view(m) == v && c.offset == next
                && c.end == ctx.end && c.input == ctx.input && c.wf() && ctx.offset <= next,
            None => r is None,
        },
{
    broadcast use vstd::std_specs::hash::group_hash_axioms;

    let (ctx1, n) = ctx.read_leb128()?;
    let ghost s = ctx.input@;
    let ghost end = ctx.end as int;
    let ghost whole = parse_namemap(s, ctx.offset as int, end);
    let mut map: HashMap<u32, String> = HashMap::new();
    let mut cur = ctx1;
    let mut k: u32 = 0;
    assert(names_view(map) =~= Map::empty());
    while k < n
        invariant
            k <= n,
            cur.wf(),
            cur.input == ctx.input,
            cur.end == ctx.end,
            ctx.offset <= cur.offset,
            s == ctx.input@,
            end == ctx.end as int,
            whole == parse_namemap(s, ctx.offset as int, end),
            whole == parse_name_pairs(s, cur.offset as int, end, (n - k) as nat, names_view(map)),
        decreases n - k,
    {
        let ghost before = names_view(map);
        let step = match cur.read_leb128() {
            Some((c, funcidx)) => match decode_name(c) {
                Some((c2, name)) => Some((c2, funcidx, name)),
                None => None,
            },
            None => None,
        };
        match step {
            Some((next, funcidx, name)) => {
                let ghost text = name@;
                map.insert(funcidx, name);
                assert(names_view(map) =~= before.insert(funcidx, text));
                cur = next;
                k += 1;
            },
            None => {
                return None;
            },
        }
    }
    Some((cur, map))
}

/// The subsections of the `name` section from `pos` to `end`, each an id, a
/// size and its bytes. Subsection 1 is a name map, which takes the place of
/// `func_names`; any other is passed over by its size.
pub open spec fn parse_name_subsections(
    s: Seq<u8>,
    pos: int,
    end: int,
    func_names: Option<Map<u32, Seq<char>>>,
) -> Option<Option<Map<u32, Seq<char>>>>
    decreases end - pos,
{
    if pos >= end {
        Some(func_names)
    } else {
        match parse_u8(s, pos, end) {
            Some((id, p)) => match parse_leb128(s, p, end) {
                Some((size, q)) => if id == 1 {
                    match parse_namemap(s, q, end) {
                        Some((m, r)) => if r <= pos || r > end {
                            None
                        } else {
                            parse_name_subsections(s, r, end, Some(m))
                        },
                        None => None,
                    }
                } else {
                    match parse_bytes(s, q, end, size as int) {
                        Some((_, r)) => if r <= pos {
                            None
                        } else {
                            parse_name_subsections(s, r, end, func_names)
                        },
                        None => None,
                    }
                },
                None => None,
            },
            None => None,
        }
    }
}

/// The contents of the `name` section.
pub open spec fn parse_debug_names(s: Seq<u8>, pos: int, end: int) -> Option<DebugNamesV> {
    match parse_name_subsections(s, pos, end, None) {
        Some(func_names) => Some(DebugNamesV { module: None, func_names, func_local_names: None }),
        None => None,
    }
}

/// Decodes the contents of the `name` section.
pub fn decode_section_custom_name<'a>(ctx: InputContext<'a>) -> (r: Option<DebugNames>)
    requires
        ctx.wf(),
    ensures
        match parse_debug_names(ctx.input@, ctx.offset as int, ctx.end as int) {
            Some(v) => r matches Some(x) && x.deep_view() == v,
            None => r is None,
        },
{
    let ghost s = ctx.input@;
    let ghost end = ctx.end as int;
    let ghost whole = parse_name_subsections(s, ctx.offset as int, end, None);
    let mut func_names: Option<HashMap<u32, String>> = None;
    let mut cur = ctx;
    while cur.offset < cur.end
        invariant
            cur.wf(),
            cur.input == ctx.input,
            cur.end == ctx.end,
            s == ctx.input@,
            end == ctx.end as int,
            whole == parse_name_subsections(s, ctx.offset as int, end, None),
            whole == parse_name_subsections(
                s,
                cur.offset as int,
                end,
                match func_names {
                    Some(m) => Some(names_view(m)),
                    None => None,
                },
            ),
        decreases cur.end - cur.offset,
    {
        let (c1, subsection) = cur.read_u8()?;
        let (c2, size) = c1.read_leb128()?;
        if subsection == 1 {
            let (c3, map) = decode_namemap(c2)?;
            func_names = Some(map);
            cur = c3;
        } else {
            let (c3, _) = c2.read_bytes(size as usize)?;
            cur = c3;
        }
    }
    Some(DebugNames { module: None, func_names, func_local_names: None })
}

/// The process of a coredump: a zero byte, then the name of the executable.
pub open spec fn parse_process_info(s: Seq<u8>, pos: int, end: int) -> Parsed<ProcessInfoV> {
    match parse_u8(s, pos, end) {
        Some((t, p)) => if t == 0 {
            match parse_name(s, p, end) {
                Some((executable_name, q)) => Some((ProcessInfoV { executable_name }, q)),
                None => None,
            }
        } else {
            None
        },
        None => None,
    }
}

/// Decodes the contents of the `core` section.
pub fn decode_process_info<'a>(ctx: InputContext<'a>) -> (r: Option<
    (InputContext<'a>, ProcessInfo),
>)
    requires
        ctx.wf(),
    ensures
        ctx.gives(r, parse_process_info(ctx.input@, ctx.offset as int, ctx.end as int)),
{
    let (ctx, t) = ctx.read_u8()?;
    if t != 0 {
        return None;
    }
    let (ctx, name) = decode_name(ctx)?;
    Some((ctx, ProcessInfo { executable_name: name }))
}

/// A thread of a coredump: a zero byte, then the name of the thread.
pub open spec fn parse_thread_info(s: Seq<u8>, pos: int, end: int) -> Parsed<ThreadInfoV> {
    match parse_u8(s, pos, end) {
        Some((t, p)) => if t == 0 {
            match parse_name(s, p, end) {
                Some((thread_name, q)) => Some((ThreadInfoV { thread_name }, q)),
                None => None,
            }
        } else {
            None
        },
        None => None,
    }
}

/// Decodes the thread of a `corestack` section.
pub fn decode_thread_info<'a>(ctx: InputContext<'a>) -> (r: Option<(InputContext<'a>, ThreadInfo)>)
    requires
        ctx.wf(),
    ensures
        ctx.gives(r, parse_thread_info(ctx.input@, ctx.offset as int, ctx.end as int)),
{
    let (ctx, t) = ctx.read_u8()?;
    if t != 0 {
        return None;
    }
    let (ctx, name) = decode_name(ctx)?;
    Some((ctx, ThreadInfo { thread_name: name }))
}

/// A captured value: a byte for its kind, then its bytes, little-endian.
pub open spec fn parse_captured(s: Seq<u8>, pos: int, end: int) -> Parsed<coredump_types::Value> {
    match parse_u8(s, pos, end) {
        Some((t, p)) => if t == 0x01 {
            Some((coredump_types::Value::Missing, p))
        } else if t == 0x7F {
            match parse_u32(s, p, end) {
                Some((bits, q)) => Some((coredump_types::Value::I32(bits as i32), q)),
                None => None,
            }
        } else if t == 0x7E {
            match parse_u64(s, p, end) {
                Some((bits, q)) => Some((coredump_types::Value::I64(bits as i64), q)),
                None => None,
            }
        } else if t == 0x7D {
            match parse_u32(s, p, end) {
                Some((bits, q)) => Some((coredump_types::Value::F32(bits), q)),
                None => None,
            }
        } else if t == 0x7C {
            match parse_u64(s, p, end) {
                Some((bits, q)) => Some((coredump_types::Value::F64(bits), q)),
                None => None,
            }
        } else {
            None
        },
        None => None,
    }
}

impl Decode for coredump_types::Value {
    open spec fn parse(s: Seq<u8>, pos: int, end: int) -> Parsed<coredump_types::Value> {
        parse_captured(s, pos, end)
    }

    fn decode<'a>(ctx: InputContext<'a>) -> (r: Option<(InputContext<'a>, coredump_types::Value)>) {
        let (ctx, t) = ctx.read_u8()?;
        if t == 0x01 {
            Some((ctx, coredump_types::Value::Missing))
        } else if t == 0x7F {
            let (ctx, bits) = ctx.read_u32()?;
            Some((ctx, coredump_types::Value::I32(bits as i32)))
        } else if t == 0x7E {
            let (ctx, bits) = ctx.read_u64()?;
            Some((ctx, coredump_types::Value::I64(bits as i64)))
        } else if t == 0x7D {
            let (ctx, bits) = ctx.read_u32()?;
            Some((ctx, coredump_types::Value::F32(bits)))
        } else if t == 0x7C {
            let (ctx, bits) = ctx.read_u64()?;
            Some((ctx, coredump_types::Value::F64(bits)))
        } else {
            None
        }
    }
}

/// A stack frame: a zero byte, the function's index, the offset in its code,
/// the number of locals, the number of stack values, then the locals. The
/// stack values are not part of the encoding.
pub open spec fn parse_stack_frame(s: Seq<u8>, pos: int, end: int) -> Parsed<StackFrameV> {
    match parse_u8(s, pos, end) {
        Some((t, at_funcidx)) => if t == 0 {
            match parse_leb128(s, at_funcidx, end) {
                Some((funcidx, at_offset)) => match parse_leb128(s, at_offset, end) {
                    Some((codeoffset, at_locals)) => match parse_leb128(s, at_locals, end) {
                        Some((count_local, at_stack)) => match parse_leb128(s, at_stack, end) {
                            Some((_, at_values)) => match parse_items::<coredump_types::Value>(
                                s,
                                at_values,
                                end,
                                count_local as nat,
                            ) {
                                Some((locals, next)) => Some(
                                    (
                                        StackFrameV {
                                            funcidx,
                                            codeoffset,
                                            locals,
                                            stack: Seq::empty(),
                                        },
                                        next,
                                    ),
                                ),
                                None => None,
                            },
                            None => None,
                        },
                        None => None,
                    },
                    None => None,
                },
                None => None,
            }
        } else {
            None
        },
        None => None,
    }
}

/// Decodes a frame.
pub fn decode_stack_frame<'a>(ctx: InputContext<'a>) -> (r: Option<(InputContext<'a>, StackFrame)>)
    requires
        ctx.wf(),
    ensures
        ctx.gives(r, parse_stack_frame(ctx.input@, ctx.offset as int, ctx.end as int)),
{
    let (ctx, v) = ctx.read_u8()?;
    if v != 0 {
        return None;
    }
    let (ctx, funcidx) = ctx.read_leb128()?;
    let (ctx, codeoffset) = ctx.read_leb128()?;
    let (ctx, count_local) = ctx.read_leb128()?;
    let (ctx, _count_stack) = ctx.read_leb128()?;
    let (ctx, locals) = decode_items::<coredump_types::Value>(ctx, count_local)?;
    proof {
        lemma_plain_view(locals);
    }
    Some((ctx, StackFrame { funcidx, codeoffset, locals, stack: Vec::new() }))
}

impl Decode for StackFrame {
    open spec fn parse(s: Seq<u8>, pos: int, end: int) -> Parsed<StackFrameV> {
        parse_stack_frame(s, pos, end)
    }

    fn decode<'a>(ctx: InputContext<'a>) -> (r: Option<(InputContext<'a>, StackFrame)>) {
        decode_stack_frame(ctx)
    }
}

/// The stack of a thread: the thread, then its frames as a vector.
pub open spec fn parse_core_stack(s: Seq<u8>, pos: int, end: int) -> Parsed<CoreStackV> {
    match parse_thread_info(s, pos, end) {
        Some((thread_info, p)) => match parse_vec::<StackFrame>(s, p, end) {
            Some((frames, q)) => Some((CoreStackV { thread_info, frames }, q)),
            None => None,
        },
        None => None,
    }
}

/// Decodes the contents of a `corestack` section.
pub fn decode_core_stack<'a>(ctx: InputContext<'a>) -> (r: Option<(InputContext<'a>, CoreStack)>)
    requires
        ctx.wf(),
    ensures
        ctx.gives(r, parse_core_stack(ctx.input@, ctx.offset as int, ctx.end as int)),
{
    let (ctx, thread_info) = decode_thread_info(ctx)?;
    let (ctx, frames) = decode_vec::<StackFrame>(ctx)?;
    Some((ctx, CoreStack { thread_info, frames }))
}

/// The contents of a custom section: its name, then what the name calls for.
/// A section of any other name than `name`, `core` and `corestack` holds its
/// bytes as they are.
pub open spec fn parse_custom(s: Seq<u8>, pos: int, end: int) -> Option<CustomSectionV> {
    match parse_name(s, pos, end) {
        Some((name, p)) => if name == "name"@ {
            match parse_debug_names(s, p, end) {
                Some(names) => Some(CustomSectionV::Name(names)),
                None => None,
            }
        } else if name == "core"@ {
            match parse_process_info(s, p, end) {
                Some((info, _)) => Some(CustomSectionV::CoredumpCore(info)),
                None => None,
            }
        } else if name == "corestack"@ {
            match parse_core_stack(s, p, end) {
                Some((stack, _)) => Some(CustomSectionV::CoredumpCoreStack(stack)),
                None => None,
            }
        } else {
            Some(CustomSectionV::Unknown(name, s.subrange(p, end)))
        },
        None => None,
    }
}

/// Decodes the contents of a custom section: its name, then what a section of
/// that name holds.
pub fn decode_section_custom<'a>(ctx: InputContext<'a>) -> (r: Option<CustomSection>)
    requires
        ctx.wf(),
    ensures
        match parse_custom(ctx.input@, ctx.offset as int, ctx.end as int) {
            Some(v) => r matches Some(x) && x.deep_view() == v,
            None => r is None,
        },
{
    let (ctx, name) = decode_name(ctx)?;
    if name == String::from_str("name") {
        let content = decode_section_custom_name(ctx)?;
        Some(CustomSection::Name(content))
    } else if name == String::from_str("core") {
        let (_, content) = decode_process_info(ctx)?;
        Some(CustomSection::CoredumpCore(content))
    } else if name == String::from_str("corestack") {
        let (_, content) = decode_core_stack(ctx)?;
        Some(CustomSection::CoredumpCoreStack(content))
    } else {
        let bytes = slice_to_vec(slice_subrange(ctx.input, ctx.offset, ctx.end));
        Some(CustomSection::Unknown(name, bytes))
    }
}

/// What a section of id `id` holds in the bytes from `from` to `to`. `size` is
/// the size that was read, with its place. A custom section is decoded from
/// its own bytes alone; one that cannot be decoded is kept as an unknown
/// section, and so is a section of an id that is not known; a standard
/// section that cannot be decoded is an error.
#[verifier::opaque]
pub open spec fn parse_section_content(
    s: Seq<u8>,
    id: u8,
    size: Value<u32>,
    from: int,
    to: int,
) -> Option<SectionV> {
    if id == 0 {
        match parse_custom(s.subrange(from, to), 0, to - from) {
            Some(c) => Some(SectionV::Custom(size, c)),
            None => Some(SectionV::Unknown(id, size.value, s.subrange(from, to))),
        }
    } else if id == 1 {
        match parse_vec::<Type>(s, from, to) {
            Some((v, _)) => Some(SectionV::Type(size, v)),
            None => None,
        }
    } else if id == 2 {
        match parse_vec::<Import>(s, from, to) {
            Some((v, _)) => Some(SectionV::Import(size, v)),
            None => None,
        }
    } else if id == 3 {
        match parse_vec::<u32>(s, from, to) {
            Some((v, _)) => Some(SectionV::Func(size, v)),
            None => None,
        }
    } else if id == 4 {
        match parse_vec::<Table>(s, from, to) {
            Some((v, _)) => Some(SectionV::Table(size, v)),
            None => None,
        }
    } else if id == 5 {
        match parse_vec::<Memory>(s, from, to) {
            Some((v, _)) => Some(SectionV::Memory(size, v)),
            None => None,
        }
    } else if id == 6 {
        match parse_vec::<Global>(s, from, to) {
            Some((v, _)) => Some(SectionV::Global(size, v)),
            None => None,
        }
    } else if id == 7 {
        match parse_vec::<Export>(s, from, to) {
            Some((v, _)) => Some(SectionV::Export(size, v)),
            None => None,
        }
    } else if id == 9 {
        match parse_vec::<Element>(s, from, to) {
            Some((v, _)) => Some(SectionV::Element(size, v)),
            None => None,
        }
    } else if id == 10 {
        match parse_vec::<Code>(s, from, to) {
            Some((v, _)) => Some(
                SectionV::Code(
                    size,
                    Value { value: v, start_offset: size.start_offset, end_offset: to as usize },
                ),
            ),
            None => None,
        }
    } else if id == 11 {
        match parse_vec::<DataSegment>(s, from, to) {
            Some((v, _)) => Some(SectionV::Data(size, v)),
            None => None,
        }
    } else {
        Some(SectionV::Unknown(id, size.value, s.subrange(from, to)))
    }
}

/// A section: its id, its size in bytes, and in those bytes its contents.
pub open spec fn parse_section(s: Seq<u8>, pos: int, end: int) -> Parsed<SectionV> {
    match parse_u8(s, pos, end) {
        Some((id, p)) => match parse_leb128(s, p, end) {
            Some((size, q)) => match parse_bytes(s, q, end, size as int) {
                Some((_, r)) => match parse_section_content(
                    s,
                    id,
                    Value { value: size, start_offset: p as usize, end_offset: q as usize },
                    q,
                    r,
                ) {
                    Some(section) => Some((section, r)),
                    None => None,
                },
                None => None,
            },
            None => None,
        },
        None => None,
    }
}

/// Decodes the contents of a section of types, imports, functions, tables
/// or memories.
fn decode_section_declared<'a>(body: InputContext<'a>, id: u8, size: Value<u32>) -> (r: Option<
    Section,
>)
    requires
        body.wf(),
        1 <= id <= 5,
    ensures
        match parse_section_content(body.input@, id, size, body.offset as int, body.end as int) {
            Some(v) => r matches Some(x) && x.deep_view() == v,
            None => r is None,
        },
{
    reveal(parse_section_content);
    if id == 1 {
        let (_, res) = decode_vec::<Type>(body)?;
        Some(Section::Type(size, res))
    } else if id == 2 {
        let (_, res) = decode_vec::<Import>(body)?;
        Some(Section::Import(size, res))
    } else if id == 3 {
        let (_, res) = decode_vec::<u32>(body)?;
        proof {
            lemma_plain_view(res);
        }
        Some(Section::Func(size, res))
    } else if id == 4 {
        let (_, res) = decode_vec::<Table>(body)?;
        proof {
            lemma_plain_view(res);
        }
        Some(Section::Table(size, res))
    } else {
        let (_, res) = decode_vec::<Memory>(body)?;
        proof {
            lemma_plain_view(res);
        }
        Some(Section::Memory(size, res))
    }
}

/// Decodes the contents of a section of globals, exports, elements, bodies
/// or data.
fn decode_section_defined<'a>(body: InputContext<'a>, id: u8, size: Value<u32>) -> (r: Option<
    Section,
>)
    requires
        body.wf(),
        id == 6 || id == 7 || id == 9 || id == 10 || id == 11,
    ensures
        match parse_section_content(body.input@, id, size, body.offset as int, body.end as int) {
            Some(v) => r matches Some(x) && x.deep_view() == v,
            None => r is None,
        },
{
    reveal(parse_section_content);
    if id == 6 {
        let (_, res) = decode_vec::<Global>(body)?;
        Some(Section::Global(size, res))
    } else if id == 7 {
        let (_, res) = decode_vec::<Export>(body)?;
        Some(Section::Export(size, res))
    } else if id == 9 {
        let (_, res) = decode_vec::<Element>(body)?;
        Some(Section::Element(size, res))
    } else if id == 10 {
        let (_, res) = decode_vec::<Code>(body)?;
        let value = Value { start_offset: size.start_offset, value: res, end_offset: body.end };
        Some(Section::Code(size, value))
    } else {
        let (_, res) = decode_vec::<DataSegment>(body)?;
        Some(Section::Data(size, res))
    }
}

/// Decodes the contents of a custom section, or keeps the bytes of a
/// section that is not decoded.
fn decode_section_other<'a>(body: InputContext<'a>, id: u8, size: Value<u32>) -> (r: Option<
    Section,
>)
    requires
        body.wf(),
        id == 0 || id == 8 || id >= 12,
    ensures
        match parse_section_content(body.input@, id, size, body.offset as int, body.end as int) {
            Some(v) => r matches Some(x) && x.deep_view() == v,
            None => r is None,
        },
{
    reveal(parse_section_content);
    let content = slice_subrange(body.input, body.offset, body.end);
    if id == 0 {
        match decode_section_custom(InputContext::new(content)) {
            Some(res) => Some(Section::Custom(size, res)),
            None => Some(Section::Unknown(id, size.value, slice_to_vec(content))),
        }
    } else {
        Some(Section::Unknown(id, size.value, slice_to_vec(content)))
    }
}

/// Decodes the contents of a section of id `id` from the bytes of `body`.
/// `size` is the size that was read, with its place.
fn decode_section_content<'a>(body: InputContext<'a>, id: u8, size: Value<u32>) -> (r: Option<
    Section,
>)
    requires
        body.wf(),
    ensures
        match parse_section_content(body.input@, id, size, body.offset as int, body.end as int) {
            Some(v) => r matches Some(x) && x.deep_view() == v,
            None => r is None,
        },
{
    if 1 <= id && id <= 5 {
        decode_section_declared(body, id, size)
    } else if id == 6 || id == 7 || id == 9 || id == 10 || id == 11 {
        decode_section_defined(body, id, size)
    } else {
        decode_section_other(body, id, size)
    }
}

/// Decodes a section: its id, its size, and in the bytes of that size its
/// contents.
pub fn decode_section<'a>(ctx: InputContext<'a>) -> (r: Option<(InputContext<'a>, Section)>)
    requires
        ctx.wf(),
    ensures
        ctx.gives(r, parse_section(ctx.input@, ctx.offset as int, ctx.end as int)),
        r matches Some((next, _)) ==> next.offset > ctx.offset,
{
    let (ctx, id) = ctx.read_u8()?;
    let start_offset = ctx.offset;
    let (ctx, size) = ctx.read_leb128()?;
    let end_offset = ctx.offset;
    let section_size = Value { start_offset, value: size, end_offset };
    let (body, after) = ctx.split(size as usize)?;
    let section = decode_section_content(body, id, section_size)?;
    Some((after, section))
}

/// The sections from `pos` until the input is used up, each with the bytes it
/// covers.
pub open spec fn parse_sections(s: Seq<u8>, pos: int, end: int) -> Option<Seq<Value<SectionV>>>
    decreases end - pos,
{
    if pos >= end {
        Some(Seq::empty())
    } else {
        match parse_section(s, pos, end) {
            Some((section, p)) => if p <= pos {
                None
            } else {
                match parse_sections(s, p, end) {
                    Some(rest) => Some(
                        seq![
                            Value {
                                value: section,
                                start_offset: pos as usize,
                                end_offset: p as usize,
                            },
                        ] + rest,
                    ),
                    None => None,
                }
            },
            None => None,
        }
    }
}

/// Why bytes are not a module.
#[derive(Debug, Clone, Copy, PartialEq, Eq, Structural)]
pub enum DecodeError {
    /// The input does not begin with the four bytes `\0asm`.
    BadMagic,
    /// The version that follows the magic is not 1.
    BadVersion,
    /// The header is cut short, a section is, or a standard section holds what
    /// the format does not know.
    Malformed,
}

/// The four bytes at the start of every module.
pub open spec fn magic() -> Seq<u8> {
    seq![0x00u8, 0x61u8, 0x73u8, 0x6du8]
}

/// The version that a module states behind the magic: 1, in four bytes.
pub open spec fn version() -> Seq<u8> {
    seq![0x01u8, 0x00u8, 0x00u8, 0x00u8]
}

/// What `bytes` decode to: the magic, the version 1, then sections up to the
/// end of the input.
pub open spec fn decode_module(bytes: Seq<u8>) -> Result<ModuleV, DecodeError> {
    match header_error(bytes) {
        Some(e) => Err(e),
        None => match parse_sections(bytes, 8, bytes.len() as int) {
            Some(sections) => Ok(ModuleV { sections }),
            None => Err(DecodeError::Malformed),
        },
    }
}

fn decode_sections<'a>(ctx: InputContext<'a>) -> (r: Option<Vec<Value<Section>>>)
    requires
        ctx.wf(),
    ensures
        match parse_sections(ctx.input@, ctx.offset as int, ctx.end as int) {
            Some(v) => r matches Some(x) && x.deep_view() == v,
            None => r is None,
        },
{
    let ghost s = ctx.input@;
    let ghost end = ctx.end as int;
    let ghost whole = parse_sections(s, ctx.offset as int, end);
    let mut cur = ctx;
    let mut sections: Vec<Value<Section>> = Vec::new();
    assert(sections.deep_view() =~= Seq::<Value<SectionV>>::empty());
    proof {
        match whole {
            Some(rest) => {
                assert(sections.deep_view() + rest =~= rest);
            },
            None => {},
        }
    }
    while cur.offset < cur.end
        invariant
            cur.wf(),
            cur.input == ctx.input,
            cur.end == ctx.end,
            s == ctx.input@,
            end == ctx.end as int,
            whole == parse_sections(s, ctx.offset as int, end),
            whole == match parse_sections(s, cur.offset as int, end) {
                Some(rest) => Some(sections.deep_view() + rest),
                None => None,
            },
        decreases cur.end - cur.offset,
    {
        let start_offset = cur.offset;
        let ghost before = sections.deep_view();
        match decode_section(cur) {
            Some((next, section)) => {
                let node = Value { start_offset, value: section, end_offset: next.offset };
                let ghost x = node.deep_view();
                sections.push(node);
                proof {
                    assert(sections.deep_view() =~= before.push(x));
                    match parse_sections(s, next.offset as int, end) {
                        Some(rest) => {
                            assert(before + (seq![x] + rest) =~= before.push(x) + rest);
                        },
                        None => {},
                    }
                }
                cur = next;
            },
            None => {
                return None;
            },
        }
    }
    proof {
        assert(sections.deep_view() + Seq::<Value<SectionV>>::empty() =~= sections.deep_view());
    }
    Some(sections)
}

/// What the first eight bytes of `bytes` are as a header: nothing where
/// they are the magic and the version 1, and else what is wrong with them.
pub open spec fn header_error(bytes: Seq<u8>) -> Option<DecodeError> {
    let end = bytes.len() as int;
    match parse_bytes(bytes, 0, end, 4) {
        Some((m, _)) => if m != magic() {
            Some(DecodeError::BadMagic)
        } else {
            match parse_bytes(bytes, 4, end, 4) {
                Some((v, _)) => if v != version() {
                    Some(DecodeError::BadVersion)
                } else {
                    None
                },
                None => Some(DecodeError::Malformed),
            }
        },
        None => Some(DecodeError::Malformed),
    }
}

/// Reads the header of a module, and gives the place behind it.
fn decode_header<'a>(input: &'a [u8]) -> (r: Result<InputContext<'a>, DecodeError>)
    ensures
        match header_error(input@) {
            None => r matches Ok(ctx) && ctx.wf() && ctx.input == input && ctx.offset == 8
                && ctx.end == input@.len(),
            Some(e) => r matches Err(x) && x == e,
        },
{
    let ctx = InputContext::new(input);
    let (ctx, m) = match ctx.read_bytes(4) {
        Some(x) => x,
        None => {
            return Err(DecodeError::Malformed);
        },
    };
    if m[0] != 0x00 || m[1] != 0x61 || m[2] != 0x73 || m[3] != 0x6d {
        return Err(DecodeError::BadMagic);
    }
    assert(m@ =~= magic());
    let (ctx, v) = match ctx.read_bytes(4) {
        Some(x) => x,
        None => {
            return Err(DecodeError::Malformed);
        },
    };
    if v[0] != 0x01 || v[1] != 0x00 || v[2] != 0x00 || v[3] != 0x00 {
        return Err(DecodeError::BadVersion);
    }
    assert(v@ =~= version());
    Ok(ctx)
}

/// Decodes a module from the bytes of its binary form.
pub fn parse(input: &[u8]) -> (r: Result<Module, DecodeError>)
    ensures
        match decode_module(input@) {
            Ok(m) => r matches Ok(x) && x.deep_view() == m,
            Err(e) => r == Err::<Module, DecodeError>(e),
        },
{
    let ctx = decode_header(input)?;
    match decode_sections(ctx) {
        Some(sections) => Ok(Module { sections }),
        None => Err(DecodeError::Malformed),
    }
}

} // verus!
