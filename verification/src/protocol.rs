//! Primitive wire-format codecs: variable-length integers (7-bit groups with
//! a continuation flag) and big-endian fixed-width integers.
//!
//! A varint stores a value little-endian-first in groups of 7 bits; every
//! byte except the last has its high bit set.  No zigzag transform is
//! applied: the raw two's-complement bit pattern is encoded, so negative
//! values always occupy the maximum number of bytes (5 for 32-bit values,
//! 10 for 64-bit values).

use vstd::prelude::*;

use crate::error::Error;

verus! {

/// 128 raised to the power `n`; the place value of the `n`-th varint group.
pub open spec fn pow128(n: nat) -> nat
    decreases n,
{
    if n == 0 {
        1
    } else {
        128 * pow128((n - 1) as nat)
    }
}

/// The varint encoding of a natural number, little-endian 7-bit groups.
pub open spec fn varint_bytes(v: nat) -> Seq<u8>
    decreases v,
{
    if v < 128 {
        seq![v as u8]
    } else {
        seq![(v % 128 + 128) as u8] + varint_bytes(v / 128)
    }
}

/// Number of bytes of the varint at the front of `s`, assuming its
/// terminating byte (high bit clear) is present.
pub open spec fn varint_len(s: Seq<u8>) -> nat
    decreases s.len(),
{
    if s.len() == 0 {
        0
    } else if s[0] < 128 {
        1
    } else {
        1 + varint_len(s.drop_first())
    }
}

/// The natural number held by the varint at the front of `s`.
pub open spec fn varint_nat(s: Seq<u8>) -> nat
    decreases s.len(),
{
    if s.len() == 0 {
        0
    } else if s[0] < 128 {
        s[0] as nat
    } else {
        (s[0] - 128) as nat + 128 * varint_nat(s.drop_first())
    }
}

/// What scanning for a varint terminator at the front of `s` runs into,
/// given a byte budget.
pub enum VarintStatus {
    /// A terminating byte lies within the budget: the varint is readable.
    Done,
    /// The budget was exhausted with every byte carrying the continuation
    /// flag: the varint is malformed.
    TooLong,
    /// The stream ended before a terminating byte: the input is truncated.
    Cut,
}

/// Scan the front of `s` for a varint terminator, spending at most `budget`
/// bytes.
pub open spec fn varint_status(s: Seq<u8>, budget: nat) -> VarintStatus
    decreases budget,
{
    if budget == 0 {
        VarintStatus::TooLong
    } else if s.len() == 0 {
        VarintStatus::Cut
    } else if s[0] < 128 {
        VarintStatus::Done
    } else {
        varint_status(s.drop_first(), (budget - 1) as nat)
    }
}

/// The `u32` with the same bit pattern as `v`.
pub open spec fn i32_to_u32(v: i32) -> u32 {
    if v >= 0 {
        v as u32
    } else {
        (v + 0x1_0000_0000) as u32
    }
}

/// The `i32` with the same bit pattern as `v`.
pub open spec fn u32_to_i32(v: u32) -> i32 {
    if v <= i32::MAX as u32 {
        v as i32
    } else {
        (v - 0x1_0000_0000) as i32
    }
}

/// The `u64` with the same bit pattern as `v`.
pub open spec fn i64_to_u64(v: i64) -> u64 {
    if v >= 0 {
        v as u64
    } else {
        (v + 0x1_0000_0000_0000_0000) as u64
    }
}

/// The `i64` with the same bit pattern as `v`.
pub open spec fn u64_to_i64(v: u64) -> i64 {
    if v <= i64::MAX as u64 {
        v as i64
    } else {
        (v - 0x1_0000_0000_0000_0000) as i64
    }
}

/// The `i32` decoded from the varint at the front of `s`: its value reduced
/// to 32 bits, read as two's complement.
pub open spec fn varint_val32(s: Seq<u8>) -> i32 {
    u32_to_i32((varint_nat(s) % 0x1_0000_0000) as u32)
}

/// The `i64` decoded from the varint at the front of `s`.
pub open spec fn varint_val64(s: Seq<u8>) -> i64 {
    u64_to_i64((varint_nat(s) % 0x1_0000_0000_0000_0000) as u64)
}

/// The big-endian 4-byte encoding of `v`.
pub open spec fn be32_bytes(v: u32) -> Seq<u8> {
    seq![
        (v / 0x100_0000) as u8,
        ((v / 0x1_0000) % 256) as u8,
        ((v / 0x100) % 256) as u8,
        (v % 256) as u8,
    ]
}

/// The value of a big-endian 4-byte group.
pub open spec fn be32_val(s: Seq<u8>) -> u32
    recommends
        s.len() == 4,
{
    (s[0] * 0x100_0000 + s[1] * 0x1_0000 + s[2] * 0x100 + s[3]) as u32
}

/// The exact bit-pattern conversion, executable.
pub fn i32_to_u32_exec(v: i32) -> (r: u32)
    ensures
        r == i32_to_u32(v),
{
    if v >= 0 {
        v as u32
    } else {
        let wide: i64 = v as i64 + 0x1_0000_0000;
        wide as u32
    }
}

/// The exact bit-pattern conversion, executable.
pub fn u32_to_i32_exec(v: u32) -> (r: i32)
    ensures
        r == u32_to_i32(v),
{
    if v <= 0x7fff_ffff {
        v as i32
    } else {
        let wide: i64 = v as i64 - 0x1_0000_0000;
        wide as i32
    }
}

/// The exact bit-pattern conversion, executable.
pub fn i64_to_u64_exec(v: i64) -> (r: u64)
    ensures
        r == i64_to_u64(v),
{
    if v >= 0 {
        v as u64
    } else {
        let wide: i128 = v as i128 + 0x1_0000_0000_0000_0000;
        wide as u64
    }
}

/// The exact bit-pattern conversion, executable.
pub fn u64_to_i64_exec(v: u64) -> (r: i64)
    ensures
        r == u64_to_i64(v),
{
    if v <= 0x7fff_ffff_ffff_ffff {
        v as i64
    } else {
        let wide: i128 = v as i128 - 0x1_0000_0000_0000_0000;
        wide as i64
    }
}

/// Append the varint encoding of `v` to `out`.
pub fn write_varint_u64(v: u64, out: &mut Vec<u8>)
    ensures
        final(out)@ == old(out)@ + varint_bytes(v as nat),
    decreases v,
{
    if v < 128 {
        out.push(v as u8);
    } else {
        out.push((v % 128 + 128) as u8);
        write_varint_u64(v / 128, out);
        assert(out@ =~= old(out)@ + varint_bytes(v as nat));
    }
}

/// Append the 32-bit varint encoding of `value` to `out`: the raw
/// two's-complement bit pattern in 7-bit groups.
pub fn write_varint(value: i32, out: &mut Vec<u8>)
    ensures
        final(out)@ == old(out)@ + varint_bytes(i32_to_u32(value) as nat),
{
    let v: u32 = i32_to_u32_exec(value);
    write_varint_u64(v as u64, out);
}

/// Append the 64-bit varint encoding of `value` to `out`.
pub fn write_varlong(value: i64, out: &mut Vec<u8>)
    ensures
        final(out)@ == old(out)@ + varint_bytes(i64_to_u64(value) as nat),
{
    let v: u64 = i64_to_u64_exec(value);
    write_varint_u64(v, out);
}

/// A varint's value is bounded by the place value just past its last group.
pub proof fn lemma_varint_nat_bound(s: Seq<u8>)
    ensures
        varint_nat(s) < pow128(varint_len(s)),
    decreases s.len(),
{
    reveal_with_fuel(pow128, 2);
    if s.len() == 0 {
    } else if s[0] < 128 {
    } else {
        lemma_varint_nat_bound(s.drop_first());
        let rest = s.drop_first();
        assert((s[0] - 128) as nat + 128 * varint_nat(rest) < 128 * (varint_nat(rest) + 1));
        assert(128 * (varint_nat(rest) + 1) <= 128 * pow128(varint_len(rest))) by (nonlinear_arith)
            requires
                varint_nat(rest) < pow128(varint_len(rest)),
        ;
    }
}

/// Read a varint starting at `pos`, spending at most `budget` bytes.
/// Returns the decoded natural number and the count of bytes consumed.
fn read_varint_raw(bytes: &[u8], pos: usize, budget: usize) -> (r: Result<(u128, usize), Error>)
    requires
        pos <= bytes@.len(),
        budget <= 10,
    ensures
        ({
            let s = bytes@.skip(pos as int);
            match r {
                Ok((v, n)) => varint_status(s, budget as nat) is Done && n == varint_len(s) && v
                    == varint_nat(s) && 1 <= n <= budget && pos + n <= bytes@.len(),
                Err(Error::MalformedVarint) => varint_status(s, budget as nat) is TooLong,
                Err(Error::TruncatedInput) => varint_status(s, budget as nat) is Cut,
                Err(_) => false,
            }
        }),
    decreases budget,
{
    let ghost s: Seq<u8> = bytes@.skip(pos as int);
    if budget == 0 {
        return Err(Error::MalformedVarint);
    }
    if pos >= bytes.len() {
        return Err(Error::TruncatedInput);
    }
    let b: u8 = bytes[pos];
    if b < 128 {
        Ok((b as u128, 1))
    } else {
        proof {
            assert(s.drop_first() =~= bytes@.skip(pos + 1));
        }
        match read_varint_raw(bytes, pos + 1, budget - 1) {
            Ok((v, n)) => {
                proof {
                    lemma_varint_nat_bound(bytes@.skip(pos + 1));
                    lemma_pow128_le(varint_len(bytes@.skip(pos + 1)), 9);
                    reveal_with_fuel(pow128, 10);
                }
                Ok(((b - 128) as u128 + 128 * v, n + 1))
            },
            Err(e) => Err(e),
        }
    }
}

/// `pow128` is monotone in its exponent.
pub proof fn lemma_pow128_le(a: nat, b: nat)
    requires
        a <= b,
    ensures
        pow128(a) <= pow128(b),
    decreases b,
{
    if a < b && b > 0 {
        lemma_pow128_le(a, (b - 1) as nat);
    }
}

/// Read a 32-bit varint starting at `pos`: up to 5 bytes, truncated to the
/// low 32 bits and read as two's complement.  Returns the value and the
/// count of bytes consumed.
pub fn read_varint(bytes: &[u8], pos: usize) -> (r: Result<(i32, usize), Error>)
    requires
        pos <= bytes@.len(),
    ensures
        ({
            let s = bytes@.skip(pos as int);
            match r {
                Ok((v, n)) => varint_status(s, 5) is Done && n == varint_len(s) && v
                    == varint_val32(s) && 1 <= n <= 5 && pos + n <= bytes@.len(),
                Err(Error::MalformedVarint) => varint_status(s, 5) is TooLong,
                Err(Error::TruncatedInput) => varint_status(s, 5) is Cut,
                Err(_) => false,
            }
        }),
{
    match read_varint_raw(bytes, pos, 5) {
        Ok((v, n)) => {
            let low: u32 = (v % 0x1_0000_0000) as u32;
            Ok((u32_to_i32_exec(low), n))
        },
        Err(e) => Err(e),
    }
}

/// Read a 64-bit varint starting at `pos`: up to 10 bytes, truncated to the
/// low 64 bits and read as two's complement.
pub fn read_varlong(bytes: &[u8], pos: usize) -> (r: Result<(i64, usize), Error>)
    requires
        pos <= bytes@.len(),
    ensures
        ({
            let s = bytes@.skip(pos as int);
            match r {
                Ok((v, n)) => varint_status(s, 10) is Done && n == varint_len(s) && v
                    == varint_val64(s) && 1 <= n <= 10 && pos + n <= bytes@.len(),
                Err(Error::MalformedVarint) => varint_status(s, 10) is TooLong,
                Err(Error::TruncatedInput) => varint_status(s, 10) is Cut,
                Err(_) => false,
            }
        }),
{
    match read_varint_raw(bytes, pos, 10) {
        Ok((v, n)) => {
            let low: u64 = (v % 0x1_0000_0000_0000_0000) as u64;
            Ok((u64_to_i64_exec(low), n))
        },
        Err(e) => Err(e),
    }
}

/// An encoded varint of a value below `pow128(k)` takes at most `k` bytes.
pub proof fn lemma_varint_bytes_len_at_most(v: nat, k: nat)
    requires
        v < pow128(k),
        k >= 1,
    ensures
        varint_bytes(v).len() <= k,
    decreases v,
{
    if v >= 128 {
        assert(pow128(k) == 128 * pow128((k - 1) as nat));
        assert(v / 128 < pow128((k - 1) as nat)) by (nonlinear_arith)
            requires
                v < 128 * pow128((k - 1) as nat),
        ;
        lemma_varint_bytes_len_at_most(v / 128, (k - 1) as nat);
    }
}

/// An encoded varint of a value at or above `pow128(k)` takes more than `k`
/// bytes.
pub proof fn lemma_varint_bytes_len_at_least(v: nat, k: nat)
    requires
        v >= pow128(k),
    ensures
        varint_bytes(v).len() > k,
    decreases v,
{
    if k == 0 {
    } else {
        assert(pow128(k) == 128 * pow128((k - 1) as nat));
        assert(pow128((k - 1) as nat) >= 1) by {
            lemma_pow128_le(0, (k - 1) as nat);
        }
        assert(v >= 128);
        assert(v / 128 >= pow128((k - 1) as nat)) by (nonlinear_arith)
            requires
                v >= 128 * pow128((k - 1) as nat),
        ;
        lemma_varint_bytes_len_at_least(v / 128, (k - 1) as nat);
    }
}

/// Scanning an encoded varint finds its terminator, reads back the encoded
/// value, and consumes exactly the encoding, whatever follows it.
pub proof fn lemma_varint_encoding_reads_back(v: nat, rest: Seq<u8>, budget: nat)
    requires
        varint_bytes(v).len() <= budget,
    ensures
        varint_status(varint_bytes(v) + rest, budget) is Done,
        varint_len(varint_bytes(v) + rest) == varint_bytes(v).len(),
        varint_nat(varint_bytes(v) + rest) == v,
    decreases v,
{
    let s = varint_bytes(v) + rest;
    if v < 128 {
        assert(s[0] == v as u8);
    } else {
        assert(s[0] == (v % 128 + 128) as u8);
        assert(s.drop_first() =~= varint_bytes(v / 128) + rest);
        lemma_varint_encoding_reads_back(v / 128, rest, (budget - 1) as nat);
        assert(varint_nat(s) == v % 128 + 128 * (v / 128));
        assert(v % 128 + 128 * (v / 128) == v) by (nonlinear_arith);
    }
}

/// Varint round trip: decoding an encoded 32-bit value gives the value back,
/// and the byte counts are exact — 1 byte for 0..=127, 5 bytes for every
/// negative value, never more than 5.
pub proof fn lemma_varint_round_trip(v: i32)
    ensures
        varint_val32(varint_bytes(i32_to_u32(v) as nat)) == v,
        varint_status(varint_bytes(i32_to_u32(v) as nat), 5) is Done,
        varint_len(varint_bytes(i32_to_u32(v) as nat)) == varint_bytes(i32_to_u32(v) as nat).len(),
        varint_bytes(i32_to_u32(v) as nat).len() <= 5,
        v < 0 ==> varint_bytes(i32_to_u32(v) as nat).len() == 5,
        0 <= v < 128 ==> varint_bytes(i32_to_u32(v) as nat).len() == 1,
{
    let u = i32_to_u32(v) as nat;
    reveal_with_fuel(pow128, 6);
    lemma_varint_bytes_len_at_most(u, 5);
    lemma_varint_encoding_reads_back(u, Seq::<u8>::empty(), 5);
    assert(varint_bytes(u) + Seq::<u8>::empty() =~= varint_bytes(u));
    assert(varint_nat(varint_bytes(u)) == u);
    assert(u % 0x1_0000_0000 == u);
    if v < 0 {
        assert(u >= pow128(4));
        lemma_varint_bytes_len_at_least(u, 4);
    }
}

/// Append the big-endian 4-byte encoding of `v` to `out`.
pub fn write_u32_be(v: u32, out: &mut Vec<u8>)
    ensures
        final(out)@ == old(out)@ + be32_bytes(v),
{
    out.push((v / 0x100_0000) as u8);
    out.push((v / 0x1_0000 % 256) as u8);
    out.push((v / 0x100 % 256) as u8);
    out.push((v % 256) as u8);
    assert(out@ =~= old(out)@ + be32_bytes(v));
}

/// Read a big-endian `u32` from the 4 bytes at `pos`.
pub fn read_u32_be(bytes: &[u8], pos: usize) -> (r: u32)
    requires
        pos + 4 <= bytes@.len(),
    ensures
        r == be32_val(bytes@.subrange(pos as int, pos + 4)),
{
    let b0: u32 = bytes[pos] as u32;
    let b1: u32 = bytes[pos + 1] as u32;
    let b2: u32 = bytes[pos + 2] as u32;
    let b3: u32 = bytes[pos + 3] as u32;
    b0 * 0x100_0000 + b1 * 0x1_0000 + b2 * 0x100 + b3
}

/// Big-endian round trip: the 4 encoded bytes read back as the value.
pub proof fn lemma_be32_round_trip(v: u32)
    ensures
        be32_val(be32_bytes(v)) == v,
{
    assert(v / 0x100_0000 * 0x100_0000 + v / 0x1_0000 % 256 * 0x1_0000 + v / 0x100 % 256 * 0x100
        + v % 256 == v) by (bit_vector);
}

} // verus!
