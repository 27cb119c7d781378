//! LEB128 variable-length integers: what the encoding is, and the calls into
//! the `leb128` crate that read and write it.

use vstd::prelude::*;
use vstd::slice::slice_subrange;

verus! {

/// The unsigned LEB128 encoding of `n`: seven bits to a byte, the least
/// significant group first, the high bit set on every byte but the last.
pub open spec fn unsigned_leb128(n: nat) -> Seq<u8>
    decreases n,
{
    if n < 128 {
        seq![n as u8]
    } else {
        seq![(n % 128 + 128) as u8] + unsigned_leb128(n / 128)
    }
}

/// The signed LEB128 encoding of `v`: as the unsigned one, in two's
/// complement, ending at the first group whose bit 6 gives the sign of what is
/// left.
pub open spec fn signed_leb128(v: int) -> Seq<u8>
    decreases (if v >= 0 { v } else { -v }),
{
    if -64 <= v < 64 {
        seq![(v % 128) as u8]
    } else {
        seq![(v % 128 + 128) as u8] + signed_leb128(v / 128)
    }
}

/// The unsigned number that starts at `s[pos]` and the position after it,
/// reading no further than `end`. `depth` counts the bytes of the number that
/// were read before `pos`. `None` where the bytes run out, or where a tenth
/// byte holds more than the one bit that is left of 64.
pub open spec fn read_unsigned(s: Seq<u8>, pos: int, end: int, depth: nat) -> Option<(nat, int)>
    decreases end - pos,
{
    if pos < 0 || pos >= end || end > s.len() {
        None
    } else if depth >= 9 && s[pos] > 1 {
        None
    } else if s[pos] < 128 {
        Some((s[pos] as nat, pos + 1))
    } else {
        match read_unsigned(s, pos + 1, end, depth + 1) {
            Some((v, next)) => Some((((s[pos] - 128) + 128 * v) as nat, next)),
            None => None,
        }
    }
}

/// The signed number that starts at `s[pos]` and the position after it. The
/// last byte's bit 6 is the sign. A tenth byte must be `0x00` or `0x7f`.
pub open spec fn read_signed(s: Seq<u8>, pos: int, end: int, depth: nat) -> Option<(int, int)>
    decreases end - pos,
{
    if pos < 0 || pos >= end || end > s.len() {
        None
    } else if depth >= 9 && s[pos] != 0 && s[pos] != 0x7f {
        None
    } else if s[pos] < 64 {
        Some((s[pos] as int, pos + 1))
    } else if s[pos] < 128 {
        Some((s[pos] - 128, pos + 1))
    } else {
        match read_signed(s, pos + 1, end, depth + 1) {
            Some((v, next)) => Some(((s[pos] - 128) + 128 * v, next)),
            None => None,
        }
    }
}

/// What a number read at `depth` must stay below to fit in 64 bits once it is
/// shifted by seven bits for each byte before it.
pub open spec fn unsigned_limit(depth: nat) -> nat
    decreases 9 - depth,
{
    if depth >= 9 {
        2
    } else {
        128 * unsigned_limit(depth + 1)
    }
}

/// Every unsigned number that is read fits in 64 bits, and ends after `pos`
/// and no later than `end`.
pub proof fn lemma_read_unsigned_bounds(s: Seq<u8>, pos: int, end: int, depth: nat)
    requires
        depth <= 9,
    ensures
        read_unsigned(s, pos, end, depth) matches Some((v, next)) ==> pos < next <= end && v
            < unsigned_limit(depth),
        unsigned_limit(0) == 0x1_0000_0000_0000_0000,
    decreases end - pos,
{
    reveal_with_fuel(unsigned_limit, 11);
    if pos < 0 || pos >= end || end > s.len() {
    } else if depth >= 9 && s[pos] > 1 {
    } else if s[pos] >= 128 {
        lemma_read_unsigned_bounds(s, pos + 1, end, depth + 1);
    } else {
        assert(depth < 9 ==> unsigned_limit(depth) >= 128);
    }
}

/// What a signed number read at `depth` must stay below in size to fit in 64
/// bits.
pub open spec fn signed_limit(depth: nat) -> nat
    decreases 9 - depth,
{
    if depth >= 9 {
        1
    } else {
        128 * signed_limit(depth + 1)
    }
}

/// Every signed number that is read fits in 64 bits, and ends after `pos` and
/// no later than `end`.
pub proof fn lemma_read_signed_bounds(s: Seq<u8>, pos: int, end: int, depth: nat)
    requires
        depth <= 9,
    ensures
        read_signed(s, pos, end, depth) matches Some((v, next)) ==> pos < next <= end
            && -signed_limit(depth) <= v < signed_limit(depth),
        signed_limit(0) == 0x8000_0000_0000_0000,
    decreases end - pos,
{
    reveal_with_fuel(signed_limit, 11);
    if pos < 0 || pos >= end || end > s.len() {
    } else if depth >= 9 && s[pos] != 0 && s[pos] != 0x7f {
    } else if s[pos] >= 128 {
        lemma_read_signed_bounds(s, pos + 1, end, depth + 1);
    } else {
        assert(depth < 9 ==> signed_limit(depth) >= 64);
    }
}

/// Reading within a part of the input is reading the part by itself.
pub proof fn lemma_read_unsigned_subrange(s: Seq<u8>, from: int, pos: int, end: int, depth: nat)
    requires
        0 <= from <= pos,
        from <= end <= s.len(),
    ensures
        read_unsigned(s, pos, end, depth) == match read_unsigned(
            s.subrange(from, end),
            pos - from,
            end - from,
            depth,
        ) {
            Some((v, next)) => Some((v, next + from)),
            None => None,
        },
    decreases end - pos,
{
    if pos < end && s[pos] >= 128 {
        lemma_read_unsigned_subrange(s, from, pos + 1, end, depth + 1);
    }
}

/// Reading within a part of the input is reading the part by itself.
pub proof fn lemma_read_signed_subrange(s: Seq<u8>, from: int, pos: int, end: int, depth: nat)
    requires
        0 <= from <= pos,
        from <= end <= s.len(),
    ensures
        read_signed(s, pos, end, depth) == match read_signed(
            s.subrange(from, end),
            pos - from,
            end - from,
            depth,
        ) {
            Some((v, next)) => Some((v, next + from)),
            None => None,
        },
    decreases end - pos,
{
    if pos < end && s[pos] >= 128 {
        lemma_read_signed_subrange(s, from, pos + 1, end, depth + 1);
    }
}

/// `leb128::write::unsigned` on a `Vec<u8>`: appends the unsigned LEB128
/// encoding of `n` to `buffer`, and nothing else. Writing to a `Vec` does not
/// fail.
#[verifier::external_body]
pub(crate) fn write_unsigned_leb128(buffer: &mut Vec<u8>, n: u64)
    ensures
        final(buffer)@ == old(buffer)@ + unsigned_leb128(n as nat),
{
    leb128::write::unsigned(buffer, n).expect("could not write LEB128");
}

/// `leb128::write::signed` on a `Vec<u8>`: appends the signed LEB128 encoding
/// of `n` to `buffer`, and nothing else.
#[verifier::external_body]
pub(crate) fn write_signed_leb128(buffer: &mut Vec<u8>, n: i64)
    ensures
        final(buffer)@ == old(buffer)@ + signed_leb128(n as int),
{
    leb128::write::signed(buffer, n).expect("could not write LEB128");
}

/// `leb128::read::unsigned` on a byte slice: the number at the front of
/// `input` and the bytes behind it, or `None` where the crate reports an
/// error (the bytes ran out, or the number does not fit in 64 bits).
#[verifier::external_body]
fn leb128_read_unsigned<'a>(input: &'a [u8]) -> (r: (Option<u64>, &'a [u8]))
    ensures
        match read_unsigned(input@, 0, input@.len() as int, 0) {
            Some((v, next)) => r.0 == Some(v as u64) && r.1@ == input@.skip(next),
            None => r.0 is None,
        },
{
    let mut rest = input;
    let value = leb128::read::unsigned(&mut rest).ok();
    (value, rest)
}

/// `leb128::read::signed` on a byte slice: the number at the front of `input`
/// and the bytes behind it, or `None` where the crate reports an error.
#[verifier::external_body]
fn leb128_read_signed<'a>(input: &'a [u8]) -> (r: (Option<i64>, &'a [u8]))
    ensures
        match read_signed(input@, 0, input@.len() as int, 0) {
            Some((v, next)) => r.0 == Some(v as i64) && r.1@ == input@.skip(next),
            None => r.0 is None,
        },
{
    let mut rest = input;
    let value = leb128::read::signed(&mut rest).ok();
    (value, rest)
}

/// Reads the unsigned LEB128 number that starts at `input[pos]`, looking no
/// further than `end`, and gives it with the position after it.
pub fn read_unsigned_leb128(input: &[u8], pos: usize, end: usize) -> (r: Option<(u64, usize)>)
    requires
        pos <= end <= input@.len(),
    ensures
        match read_unsigned(input@, pos as int, end as int, 0) {
            Some((v, next)) => r == Some((v as u64, next as usize)) && v <= u64::MAX && pos < next
                <= end,
            None => r is None,
        },
{
    let part = slice_subrange(input, pos, end);
    let (value, rest) = leb128_read_unsigned(part);
    proof {
        lemma_read_unsigned_subrange(input@, pos as int, pos as int, end as int, 0);
        lemma_read_unsigned_bounds(input@, pos as int, end as int, 0);
    }
    match value {
        Some(v) => {
            let used = part.len() - rest.len();
            Some((v, pos + used))
        },
        None => None,
    }
}

/// Reads the signed LEB128 number that starts at `input[pos]`, looking no
/// further than `end`, and gives it with the position after it.
pub fn read_signed_leb128(input: &[u8], pos: usize, end: usize) -> (r: Option<(i64, usize)>)
    requires
        pos <= end <= input@.len(),
    ensures
        match read_signed(input@, pos as int, end as int, 0) {
            Some((v, next)) => r == Some((v as i64, next as usize)) && i64::MIN <= v <= i64::MAX
                && pos < next <= end,
            None => r is None,
        },
{
    let part = slice_subrange(input, pos, end);
    let (value, rest) = leb128_read_signed(part);
    proof {
        lemma_read_signed_subrange(input@, pos as int, pos as int, end as int, 0);
        lemma_read_signed_bounds(input@, pos as int, end as int, 0);
    }
    match value {
        Some(v) => {
            let used = part.len() - rest.len();
            Some((v, pos + used))
        },
        None => None,
    }
}

/// The encoding of a number holds at least one byte.
pub proof fn lemma_unsigned_leb128_len(n: nat)
    ensures
        unsigned_leb128(n).len() >= 1,
    decreases n,
{
    if n >= 128 {
        lemma_unsigned_leb128_len(n / 128);
    }
}

/// The encoding of a 32-bit number holds at most five bytes.
pub proof fn lemma_unsigned_leb128_short(n: nat)
    requires
        n < 0x1_0000_0000,
    ensures
        unsigned_leb128(n).len() <= 5,
{
    reveal_with_fuel(unsigned_leb128, 6);
}

/// The encoding of a number holds at least one byte.
pub proof fn lemma_signed_leb128_len(v: int)
    ensures
        signed_leb128(v).len() >= 1,
    decreases (if v >= 0 { v } else { -v }),
{
    if !(-64 <= v < 64) {
        lemma_signed_leb128_len(v / 128);
    }
}

/// Reading gives back what was written: where the encoding of `n` stands at
/// `pos`, the number read there is `n`, and the position after it is the end
/// of the encoding.
pub proof fn lemma_read_unsigned_leb128(s: Seq<u8>, pos: int, end: int, n: nat, depth: nat)
    requires
        depth <= 9,
        n < unsigned_limit(depth),
        0 <= pos,
        pos + unsigned_leb128(n).len() <= end <= s.len(),
        s.subrange(pos, pos + unsigned_leb128(n).len()) == unsigned_leb128(n),
    ensures
        read_unsigned(s, pos, end, depth) == Some((n, pos + unsigned_leb128(n).len())),
    decreases n,
{
    reveal_with_fuel(unsigned_limit, 2);
    let enc = unsigned_leb128(n);
    lemma_unsigned_leb128_len(n);
    assert(s[pos] == s.subrange(pos, pos + enc.len())[0]);
    if n < 128 {
    } else {
        let rest = unsigned_leb128(n / 128);
        assert(s.subrange(pos + 1, pos + 1 + rest.len()) =~= enc.subrange(1, enc.len() as int));
        assert(enc.subrange(1, enc.len() as int) =~= rest);
        lemma_read_unsigned_leb128(s, pos + 1, end, n / 128, depth + 1);
    }
}

/// Reading gives back what was written: where the encoding of `v` stands at
/// `pos`, the number read there is `v`, and the position after it is the end
/// of the encoding.
pub proof fn lemma_read_signed_leb128(s: Seq<u8>, pos: int, end: int, v: int, depth: nat)
    requires
        depth <= 9,
        -signed_limit(depth) <= v < signed_limit(depth),
        0 <= pos,
        pos + signed_leb128(v).len() <= end <= s.len(),
        s.subrange(pos, pos + signed_leb128(v).len()) == signed_leb128(v),
    ensures
        read_signed(s, pos, end, depth) == Some((v, pos + signed_leb128(v).len())),
    decreases (if v >= 0 { v } else { -v }),
{
    reveal_with_fuel(signed_limit, 2);
    let enc = signed_leb128(v);
    lemma_signed_leb128_len(v);
    assert(s[pos] == s.subrange(pos, pos + enc.len())[0]);
    if -64 <= v < 64 {
    } else {
        let rest = signed_leb128(v / 128);
        assert(s.subrange(pos + 1, pos + 1 + rest.len()) =~= enc.subrange(1, enc.len() as int));
        assert(enc.subrange(1, enc.len() as int) =~= rest);
        lemma_read_signed_leb128(s, pos + 1, end, v / 128, depth + 1);
    }
}

/// The `k` low bytes of `n`, the least significant first.
pub open spec fn le_bytes(n: nat, k: nat) -> Seq<u8>
    decreases k,
{
    if k == 0 {
        Seq::empty()
    } else {
        seq![(n % 256) as u8] + le_bytes(n / 256, (k - 1) as nat)
    }
}

/// The number that the bytes of `b` from `i` on stand for, the least
/// significant first.
pub open spec fn le_number(b: Seq<u8>, i: nat) -> nat
    decreases b.len() - i,
{
    if i >= b.len() {
        0
    } else {
        b[i as int] as nat + 256 * le_number(b, i + 1)
    }
}

/// The number of values of `k` bytes.
pub open spec fn le_limit(k: nat) -> nat
    decreases k,
{
    if k == 0 {
        1
    } else {
        256 * le_limit((k - 1) as nat)
    }
}

/// Four bytes have 2^32 values, eight have 2^64.
pub proof fn lemma_le_limit()
    ensures
        le_limit(4) == 0x1_0000_0000,
        le_limit(8) == 0x1_0000_0000_0000_0000,
{
    assert(le_limit(0) == 1);
    assert(le_limit(1) == 0x100);
    assert(le_limit(2) == 0x1_0000);
    assert(le_limit(3) == 0x100_0000);
    assert(le_limit(4) == 0x1_0000_0000);
    assert(le_limit(5) == 0x100_0000_0000);
    assert(le_limit(6) == 0x1_0000_0000_0000);
    assert(le_limit(7) == 0x100_0000_0000_0000);
}

/// The `k` low bytes of a number are `k` bytes.
pub proof fn lemma_le_bytes_len(n: nat, k: nat)
    ensures
        le_bytes(n, k).len() == k,
    decreases k,
{
    if k > 0 {
        lemma_le_bytes_len(n / 256, (k - 1) as nat);
    }
}

/// Where the `k` bytes of a number of `k` bytes end `s`, they stand for
/// the number.
pub proof fn lemma_le_number(s: Seq<u8>, i: nat, n: nat, k: nat)
    requires
        i + k == s.len(),
        n < le_limit(k),
        forall|j: int| 0 <= j < k ==> s[i as int + j] == #[trigger] le_bytes(n, k)[j],
    ensures
        le_number(s, i) == n,
    decreases k,
{
    lemma_le_bytes_len(n, k);
    if k > 0 {
        let rest = le_bytes(n / 256, (k - 1) as nat);
        lemma_le_bytes_len(n / 256, (k - 1) as nat);
        assert(le_bytes(n, k)[0] == (n % 256) as u8);
        assert(s[i as int + 0] == le_bytes(n, k)[0]);
        assert forall|j: int| 0 <= j < k - 1 implies s[i as int + 1 + j] == #[trigger] rest[j] by {
            assert(le_bytes(n, k)[j + 1] == rest[j]);
            assert(s[i as int + (j + 1)] == le_bytes(n, k)[j + 1]);
        }
        lemma_le_number(s, i + 1, n / 256, (k - 1) as nat);
    }
}

/// The bytes of a number of `k` bytes stand for the number.
pub proof fn lemma_le_round_trip(n: nat, k: nat)
    requires
        n < le_limit(k),
    ensures
        le_bytes(n, k).len() == k,
        le_number(le_bytes(n, k), 0) == n,
{
    lemma_le_bytes_len(n, k);
    lemma_le_number(le_bytes(n, k), 0, n, k);
}

/// The number that four bytes stand for, the least significant first.
pub fn u32_of_le_bytes(bytes: &[u8]) -> (r: u32)
    requires
        bytes@.len() == 4,
    ensures
        r == le_number(bytes@, 0),
{
    let a: u32 = bytes[0] as u32;
    let b: u32 = bytes[1] as u32;
    let c: u32 = bytes[2] as u32;
    let d: u32 = bytes[3] as u32;
    proof {
        let s = bytes@;
        assert(le_number(s, 4) == 0);
        assert(le_number(s, 3) == d);
        assert(le_number(s, 2) == c + 256 * d);
        assert(le_number(s, 1) == b + 256 * (c + 256 * d));
        assert(le_number(s, 0) == a + 256 * (b + 256 * (c + 256 * d)));
    }
    a + 0x100 * b + 0x1_0000 * c + 0x100_0000 * d
}

/// The number that eight bytes stand for, the least significant first.
pub fn u64_of_le_bytes(bytes: &[u8]) -> (r: u64)
    requires
        bytes@.len() == 8,
    ensures
        r == le_number(bytes@, 0),
{
    let low = u32_of_le_bytes(vstd::slice::slice_subrange(bytes, 0, 4));
    let high = u32_of_le_bytes(vstd::slice::slice_subrange(bytes, 4, 8));
    proof {
        let s = bytes@;
        let l = s.subrange(0, 4);
        let h = s.subrange(4, 8);
        assert(le_number(h, 4) == 0);
        assert(le_number(h, 3) == h[3]);
        assert(le_number(h, 2) == h[2] + 256 * le_number(h, 3));
        assert(le_number(h, 1) == h[1] + 256 * le_number(h, 2));
        assert(le_number(h, 0) == h[0] + 256 * le_number(h, 1));
        assert(le_number(l, 4) == 0);
        assert(le_number(l, 3) == l[3]);
        assert(le_number(l, 2) == l[2] + 256 * le_number(l, 3));
        assert(le_number(l, 1) == l[1] + 256 * le_number(l, 2));
        assert(le_number(l, 0) == l[0] + 256 * le_number(l, 1));
        assert(le_number(s, 8) == 0);
        assert(le_number(s, 7) == s[7]);
        assert(le_number(s, 6) == s[6] + 256 * le_number(s, 7));
        assert(le_number(s, 5) == s[5] + 256 * le_number(s, 6));
        assert(le_number(s, 4) == s[4] + 256 * le_number(s, 5));
        assert(le_number(s, 4) == le_number(h, 0));
        assert(le_number(s, 3) == s[3] + 256 * le_number(s, 4));
        assert(le_number(s, 2) == s[2] + 256 * le_number(s, 3));
        assert(le_number(s, 1) == s[1] + 256 * le_number(s, 2));
        assert(le_number(s, 0) == s[0] + 256 * le_number(s, 1));
        assert(le_number(s, 0) == le_number(l, 0) + 0x1_0000_0000 * le_number(h, 0));
    }
    low as u64 + 0x1_0000_0000 * (high as u64)
}

} // verus!
