//! Little-endian integers as they stand in the index files.

use vstd::prelude::*;

verus! {

/// The value of two bytes read as a little-endian integer.
pub open spec fn le_u16(s: Seq<u8>) -> nat
    recommends
        s.len() == 2,
{
    (s[0] as nat) + 256 * (s[1] as nat)
}

/// The value of four bytes read as a little-endian integer.
pub open spec fn le_u32(s: Seq<u8>) -> nat
    recommends
        s.len() == 4,
{
    (s[0] as nat) + 256 * (s[1] as nat) + 65536 * (s[2] as nat) + 16777216 * (s[3] as nat)
}

/// The value of eight bytes read as a little-endian integer.
pub open spec fn le_u64(s: Seq<u8>) -> nat
    recommends
        s.len() == 8,
{
    le_u32(s.subrange(0, 4)) + 4294967296 * le_u32(s.subrange(4, 8))
}

/// The two bytes that spell `x` in little-endian order.
pub open spec fn u16_le(x: u16) -> Seq<u8> {
    seq![(x % 256) as u8, (x / 256) as u8]
}

/// The four bytes that spell `x` in little-endian order.
pub open spec fn u32_le(x: u32) -> Seq<u8> {
    seq![
        (x % 256) as u8,
        (x / 256 % 256) as u8,
        (x / 65536 % 256) as u8,
        (x / 16777216) as u8,
    ]
}

/// The eight bytes that spell `x` in little-endian order.
pub open spec fn u64_le(x: u64) -> Seq<u8> {
    u32_le((x % 4294967296) as u32) + u32_le((x / 4294967296) as u32)
}

/// Reading back what `u16_le` wrote gives the number again.
pub proof fn lemma_u16_round_trip(x: u16)
    ensures
        u16_le(x).len() == 2,
        le_u16(u16_le(x)) == x,
{
}

/// Reading back what `u32_le` wrote gives the number again.
pub proof fn lemma_u32_round_trip(x: u32)
    ensures
        u32_le(x).len() == 4,
        le_u32(u32_le(x)) == x,
{
}

/// Reading back what `u64_le` wrote gives the number again.
pub proof fn lemma_u64_round_trip(x: u64)
    ensures
        u64_le(x).len() == 8,
        le_u64(u64_le(x)) == x,
{
    let lo = (x % 4294967296) as u32;
    let hi = (x / 4294967296) as u32;
    lemma_u32_round_trip(lo);
    lemma_u32_round_trip(hi);
    assert(u64_le(x).subrange(0, 4) =~= u32_le(lo));
    assert(u64_le(x).subrange(4, 8) =~= u32_le(hi));
}

/// A little-endian value of two bytes fits sixteen bits.
pub proof fn lemma_le_u16_bound(s: Seq<u8>)
    ensures
        le_u16(s) <= 0xffff,
{
}

/// A little-endian value of four bytes fits thirty-two bits.
pub proof fn lemma_le_u32_bound(s: Seq<u8>)
    ensures
        le_u32(s) <= 0xffff_ffff,
{
}

/// A little-endian value of eight bytes fits sixty-four bits.
pub proof fn lemma_le_u64_bound(s: Seq<u8>)
    ensures
        le_u64(s) <= 0xffff_ffff_ffff_ffff,
{
    lemma_le_u32_bound(s.subrange(0, 4));
    lemma_le_u32_bound(s.subrange(4, 8));
}

/// Reads the little-endian `u16` that starts at `at`.
pub fn read_u16_le(bytes: &[u8], at: usize) -> (v: u16)
    requires
        at + 2 <= bytes@.len(),
    ensures
        v == le_u16(bytes@.subrange(at as int, at + 2)),
{
    let b0 = bytes[at] as u16;
    let b1 = bytes[at + 1] as u16;
    b0 + 256 * b1
}

/// Reads the little-endian `u32` that starts at `at`.
pub fn read_u32_le(bytes: &[u8], at: usize) -> (v: u32)
    requires
        at + 4 <= bytes@.len(),
    ensures
        v == le_u32(bytes@.subrange(at as int, at + 4)),
{
    let b0 = bytes[at] as u32;
    let b1 = bytes[at + 1] as u32;
    let b2 = bytes[at + 2] as u32;
    let b3 = bytes[at + 3] as u32;
    b0 + 256 * b1 + 65536 * b2 + 16777216 * b3
}

/// Reads the little-endian `u64` that starts at `at`.
pub fn read_u64_le(bytes: &[u8], at: usize) -> (v: u64)
    requires
        at + 8 <= bytes@.len(),
    ensures
        v == le_u64(bytes@.subrange(at as int, at + 8)),
{
    let n = bytes.len();
    assert(at + 8 <= n);
    let lo = read_u32_le(bytes, at) as u64;
    let hi = read_u32_le(bytes, at + 4) as u64;
    proof {
        let s = bytes@.subrange(at as int, at + 8);
        assert(s.subrange(0, 4) =~= bytes@.subrange(at as int, at + 4));
        assert(s.subrange(4, 8) =~= bytes@.subrange(at + 4, at + 8));
    }
    lo + 4294967296 * hi
}

/// Appends `x` in little-endian order.
pub fn push_u16_le(out: &mut Vec<u8>, x: u16)
    ensures
        final(out)@ == old(out)@ + u16_le(x),
{
    out.push((x % 256) as u8);
    out.push((x / 256) as u8);
    assert(out@ =~= old(out)@ + u16_le(x));
}

/// Appends `x` in little-endian order.
pub fn push_u32_le(out: &mut Vec<u8>, x: u32)
    ensures
        final(out)@ == old(out)@ + u32_le(x),
{
    out.push((x % 256) as u8);
    out.push((x / 256 % 256) as u8);
    out.push((x / 65536 % 256) as u8);
    out.push((x / 16777216) as u8);
    assert(out@ =~= old(out)@ + u32_le(x));
}

/// Appends `x` in little-endian order.
pub fn push_u64_le(out: &mut Vec<u8>, x: u64)
    ensures
        final(out)@ == old(out)@ + u64_le(x),
{
    push_u32_le(out, (x % 4294967296) as u32);
    push_u32_le(out, (x / 4294967296) as u32);
    assert(out@ =~= old(out)@ + u64_le(x));
}

} // verus!
