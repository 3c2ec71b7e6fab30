//! Integers as bytes.
//!
//! An index is a variable-length integer of seven-bit groups, lowest group
//! first, each byte but the last with its top bit set. Every other integer
//! is little-endian at its full width.

use vstd::prelude::*;
use vstd::slice::slice_subrange;

verus! {

/// The most bytes that a variable-length integer may take.
pub const VARINT_MAX_BYTES: usize = 10;

/// 128 to the power `k`.
pub open spec fn pow128(k: nat) -> nat
    decreases k,
{
    if k == 0 {
        1
    } else {
        128 * pow128((k - 1) as nat)
    }
}

/// The length of the variable-length integer that `b` starts with: a run of
/// bytes with the top bit set, closed by one with it clear, `budget` bytes at
/// most. `None` where `b` ends, or the budget, before the closing byte.
pub open spec fn spec_varint_len(b: Seq<u8>, budget: nat) -> Option<nat>
    decreases budget,
{
    if budget == 0 || b.len() == 0 {
        None
    } else if b[0] < 128 {
        Some(1)
    } else {
        match spec_varint_len(b.skip(1), (budget - 1) as nat) {
            Some(n) => Some(n + 1),
            None => None,
        }
    }
}

/// The number that the seven-bit groups of `digits` spell, lowest group first.
pub open spec fn spec_varint_value(digits: Seq<u8>) -> nat
    decreases digits.len(),
{
    if digits.len() == 0 {
        0
    } else {
        (digits[0] % 128) as nat + 128 * spec_varint_value(digits.skip(1))
    }
}

/// Reads an index below `count` from the front of `b`: the value of the
/// variable-length integer there, reduced to 64 bits. Gives the index and the
/// bytes after it.
pub open spec fn spec_take_index(b: Seq<u8>, count: u32) -> Option<(u32, Seq<u8>)> {
    match spec_varint_len(b, VARINT_MAX_BYTES as nat) {
        None => None,
        Some(n) => {
            let v = spec_varint_value(b.subrange(0, n as int)) % 0x1_0000_0000_0000_0000;
            if v < count {
                Some((v as u32, b.skip(n as int)))
            } else {
                None
            }
        },
    }
}

/// The shortest variable-length integer that spells `v`.
pub open spec fn spec_index_bytes(v: nat) -> Seq<u8>
    decreases v,
{
    if v < 128 {
        seq![v as u8]
    } else {
        seq![(v % 128 + 128) as u8] + spec_index_bytes(v / 128)
    }
}

/// The two bytes of `x`, low byte first.
pub open spec fn spec_u16_bytes(x: u16) -> Seq<u8> {
    seq![(x % 256) as u8, (x / 256) as u8]
}

/// The four bytes of `x`, lowest byte first.
pub open spec fn spec_u32_bytes(x: u32) -> Seq<u8> {
    seq![
        (x % 256) as u8,
        (x / 256 % 256) as u8,
        (x / 65536 % 256) as u8,
        (x / 16777216) as u8,
    ]
}

/// Reads a two-byte little-endian integer from the front of `b`.
pub open spec fn spec_take_u16(b: Seq<u8>) -> Option<(u16, Seq<u8>)> {
    if b.len() < 2 {
        None
    } else {
        Some(((b[0] + 256 * b[1]) as u16, b.skip(2)))
    }
}

/// Reads a four-byte little-endian integer from the front of `b`.
pub open spec fn spec_take_u32(b: Seq<u8>) -> Option<(u32, Seq<u8>)> {
    if b.len() < 4 {
        None
    } else {
        Some(((b[0] + 256 * b[1] + 65536 * b[2] + 16777216 * b[3]) as u32, b.skip(4)))
    }
}

proof fn lemma_pow128_bound(k: nat)
    requires
        k <= 10,
    ensures
        pow128(k) <= 0x40_0000_0000_0000_0000,
{
    assert(pow128(0) == 1);
    assert(pow128(1) == 0x80);
    assert(pow128(2) == 0x4000);
    assert(pow128(3) == 0x20_0000);
    assert(pow128(4) == 0x1000_0000);
    assert(pow128(5) == 0x8_0000_0000);
    assert(pow128(6) == 0x400_0000_0000);
    assert(pow128(7) == 0x2_0000_0000_0000);
    assert(pow128(8) == 0x100_0000_0000_0000);
    assert(pow128(9) == 0x8000_0000_0000_0000);
    assert(pow128(10) == 0x40_0000_0000_0000_0000);
    lemma_pow128_monotone(k, 10);
}

proof fn lemma_pow128_step(k: nat)
    requires
        k > 0,
    ensures
        pow128(k) == 128 * pow128((k - 1) as nat),
{
}

proof fn lemma_pow128_monotone(i: nat, j: nat)
    requires
        i <= j,
    ensures
        1 <= pow128(i) <= pow128(j),
    decreases j,
{
    if j == 0 {
    } else if i == j {
        lemma_pow128_monotone((i - 1) as nat, (j - 1) as nat);
    } else {
        lemma_pow128_monotone(i, (j - 1) as nat);
    }
}

/// A run of `n` bytes with the top bit set only puts off the end of the
/// integer by `n`.
proof fn lemma_varint_len_skip(b: Seq<u8>, budget: nat, n: nat)
    requires
        n <= budget,
        n <= b.len(),
        forall|j: int| 0 <= j < n ==> b[j] >= 128,
    ensures
        spec_varint_len(b, budget) == match spec_varint_len(
            b.skip(n as int),
            (budget - n) as nat,
        ) {
            Some(m) => Some(m + n),
            None => None,
        },
    decreases n,
{
    if n == 0 {
        assert(b.skip(0) =~= b);
    } else {
        let tail = b.skip(1);
        assert forall|j: int| 0 <= j < n - 1 implies tail[j] >= 128 by {
            assert(tail[j] == b[j + 1]);
        }
        lemma_varint_len_skip(tail, (budget - 1) as nat, (n - 1) as nat);
        assert(tail.skip(n - 1) =~= b.skip(n as int));
    }
}

/// Reads an index below `count` from the front of `b`.
pub fn take_index<'a>(b: &'a [u8], count: u32) -> (r: Option<(u32, &'a [u8])>)
    ensures
        match r {
            Some((v, rest)) => spec_take_index(b@, count) == Some((v, rest@)),
            None => spec_take_index(b@, count) is None,
        },
{
    let mut n: usize = 0;
    while n < VARINT_MAX_BYTES && n < b.len() && b[n] >= 128
        invariant
            n <= VARINT_MAX_BYTES,
            n <= b.len(),
            forall|j: int| 0 <= j < n ==> b@[j] >= 128,
        decreases VARINT_MAX_BYTES - n,
    {
        n += 1;
    }
    proof {
        lemma_varint_len_skip(b@, VARINT_MAX_BYTES as nat, n as nat);
    }
    if n >= VARINT_MAX_BYTES || n >= b.len() {
        return None;
    }
    let len: usize = n + 1;
    proof {
        assert(b@.skip(n as int)[0] == b@[n as int]);
        assert(spec_varint_len(b@, VARINT_MAX_BYTES as nat) == Some(len as nat));
    }
    let mut acc: u128 = 0;
    let mut j: usize = len;
    proof {
        assert(b@.subrange(len as int, len as int).len() == 0);
    }
    while j > 0
        invariant
            j <= len <= VARINT_MAX_BYTES,
            len <= b.len(),
            acc == spec_varint_value(b@.subrange(j as int, len as int)),
            acc < pow128((len - j) as nat),
        decreases j,
    {
        proof {
            lemma_pow128_bound((len - j) as nat);
            lemma_pow128_step((len - j + 1) as nat);
            let s = b@.subrange(j - 1, len as int);
            assert(s.skip(1) =~= b@.subrange(j as int, len as int));
            assert(s[0] == b@[j - 1]);
        }
        j -= 1;
        acc = acc * 128 + (b[j] % 128) as u128;
    }
    let v: u128 = acc % 0x1_0000_0000_0000_0000;
    if v < count as u128 {
        Some((v as u32, slice_subrange(b, len, b.len())))
    } else {
        None
    }
}

/// Reads a two-byte little-endian integer from the front of `b`.
pub fn take_u16<'a>(b: &'a [u8]) -> (r: Option<(u16, &'a [u8])>)
    ensures
        match r {
            Some((v, rest)) => spec_take_u16(b@) == Some((v, rest@)),
            None => spec_take_u16(b@) is None,
        },
{
    if b.len() < 2 {
        return None;
    }
    let v: u16 = b[0] as u16 + 256 * (b[1] as u16);
    Some((v, slice_subrange(b, 2, b.len())))
}

/// Reads a four-byte little-endian integer from the front of `b`.
pub fn take_u32<'a>(b: &'a [u8]) -> (r: Option<(u32, &'a [u8])>)
    ensures
        match r {
            Some((v, rest)) => spec_take_u32(b@) == Some((v, rest@)),
            None => spec_take_u32(b@) is None,
        },
{
    if b.len() < 4 {
        return None;
    }
    let v: u32 = b[0] as u32 + 256 * (b[1] as u32) + 65536 * (b[2] as u32) + 16777216 * (
    b[3] as u32);
    Some((v, slice_subrange(b, 4, b.len())))
}

/// Appends the shortest variable-length integer that spells `v`.
pub fn push_index(out: &mut Vec<u8>, v: u32)
    ensures
        final(out)@ == old(out)@ + spec_index_bytes(v as nat),
{
    let mut left: u32 = v;
    while left >= 128
        invariant
            old(out)@ + spec_index_bytes(v as nat) == out@ + spec_index_bytes(left as nat),
        decreases left,
    {
        proof {
            let digit = seq![(left % 128 + 128) as u8];
            let tail = spec_index_bytes((left / 128) as nat);
            assert(out@ + (digit + tail) =~= out@.push((left % 128 + 128) as u8) + tail);
        }
        out.push((left % 128 + 128) as u8);
        left = left / 128;
    }
    proof {
        assert(out@ + seq![left as u8] =~= out@.push(left as u8));
    }
    out.push(left as u8);
}

/// Appends the two bytes of `x`, low byte first.
pub fn push_u16(out: &mut Vec<u8>, x: u16)
    ensures
        final(out)@ == old(out)@ + spec_u16_bytes(x),
{
    out.push((x % 256) as u8);
    out.push((x / 256) as u8);
    assert(out@ =~= old(out)@ + spec_u16_bytes(x));
}

/// Appends the four bytes of `x`, lowest byte first.
pub fn push_u32(out: &mut Vec<u8>, x: u32)
    ensures
        final(out)@ == old(out)@ + spec_u32_bytes(x),
{
    out.push((x % 256) as u8);
    out.push((x / 256 % 256) as u8);
    out.push((x / 65536 % 256) as u8);
    out.push((x / 16777216) as u8);
    assert(out@ =~= old(out)@ + spec_u32_bytes(x));
}

/// What `spec_index_bytes` writes for a number below 128 to the power `k` is
/// one integer of at most `k` bytes that spells that number.
proof fn lemma_index_bytes_spell(v: nat, k: nat, budget: nat, rest: Seq<u8>)
    requires
        1 <= k <= budget,
        v < pow128(k),
    ensures
        spec_index_bytes(v).len() <= k,
        spec_varint_len(spec_index_bytes(v) + rest, budget) == Some(spec_index_bytes(v).len()),
        spec_varint_value(spec_index_bytes(v)) == v,
    decreases v,
{
    let bytes = spec_index_bytes(v);
    if v < 128 {
        assert((bytes + rest)[0] == bytes[0]);
        assert(bytes.skip(1).len() == 0);
        assert(spec_varint_value(bytes.skip(1)) == 0);
        assert(bytes[0] % 128 == v);
    } else {
        lemma_pow128_step(k);
        if k == 1 {
            assert(pow128(0) == 1);
        }
        let tail = spec_index_bytes(v / 128);
        lemma_index_bytes_spell(v / 128, (k - 1) as nat, (budget - 1) as nat, rest);
        assert((bytes + rest)[0] == bytes[0]);
        assert((bytes + rest).skip(1) =~= tail + rest);
        assert(bytes.skip(1) =~= tail);
        assert(bytes[0] == (v % 128 + 128) as u8);
        assert(bytes[0] % 128 == v % 128);
    }
}

/// An index takes at most five bytes.
pub proof fn lemma_index_bytes_len(v: u32)
    ensures
        1 <= spec_index_bytes(v as nat).len() <= 5,
{
    lemma_pow128_five();
    lemma_index_bytes_spell(v as nat, 5, VARINT_MAX_BYTES as nat, Seq::empty());
}

proof fn lemma_pow128_five()
    ensures
        pow128(5) == 0x8_0000_0000,
{
    assert(pow128(0) == 1);
    assert(pow128(1) == 0x80);
    assert(pow128(2) == 0x4000);
    assert(pow128(3) == 0x20_0000);
    assert(pow128(4) == 0x1000_0000);
}

/// Reading back an index that was written gives the index, and leaves what
/// came after it.
pub proof fn lemma_index_round_trip(v: u32, count: u32, rest: Seq<u8>)
    requires
        v < count,
    ensures
        spec_take_index(spec_index_bytes(v as nat) + rest, count) == Some((v, rest)),
{
    let bytes = spec_index_bytes(v as nat);
    lemma_pow128_five();
    lemma_index_bytes_spell(v as nat, 5, VARINT_MAX_BYTES as nat, rest);
    assert((bytes + rest).subrange(0, bytes.len() as int) =~= bytes);
    assert((bytes + rest).skip(bytes.len() as int) =~= rest);
}

/// Reading back a two-byte integer that was written gives the integer.
pub proof fn lemma_u16_round_trip(x: u16, rest: Seq<u8>)
    ensures
        spec_take_u16(spec_u16_bytes(x) + rest) == Some((x, rest)),
{
    let b = spec_u16_bytes(x) + rest;
    assert(b[0] == (x % 256) as u8);
    assert(b[1] == (x / 256) as u8);
    assert(b.skip(2) =~= rest);
}

/// Reading back a four-byte integer that was written gives the integer.
pub proof fn lemma_u32_round_trip(x: u32, rest: Seq<u8>)
    ensures
        spec_take_u32(spec_u32_bytes(x) + rest) == Some((x, rest)),
{
    let b = spec_u32_bytes(x) + rest;
    assert(b[0] == (x % 256) as u8);
    assert(b[1] == (x / 256 % 256) as u8);
    assert(b[2] == (x / 65536 % 256) as u8);
    assert(b[3] == (x / 16777216) as u8);
    assert(b.skip(4) =~= rest);
}

} // verus!
