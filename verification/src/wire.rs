//! Big-endian integer encoding, as used by every field of the protocol.
use vstd::prelude::*;

verus! {

/// The two big-endian bytes of `x`.
pub open spec fn u16_be(x: u16) -> Seq<u8> {
    seq![(x >> 8u16) as u8, x as u8]
}

/// The four big-endian bytes of `x`.
pub open spec fn u32_be(x: u32) -> Seq<u8> {
    seq![(x >> 24u32) as u8, (x >> 16u32) as u8, (x >> 8u32) as u8, x as u8]
}

/// The eight big-endian bytes of `x`.
pub open spec fn u64_be(x: u64) -> Seq<u8> {
    u32_be((x >> 32u64) as u32) + u32_be(x as u32)
}

pub open spec fn i16_be(x: i16) -> Seq<u8> {
    u16_be(x as u16)
}

pub open spec fn i32_be(x: i32) -> Seq<u8> {
    u32_be(x as u32)
}

pub open spec fn i64_be(x: i64) -> Seq<u8> {
    u64_be(x as u64)
}

/// The unsigned 16-bit integer whose big-endian bytes start `s`.
pub open spec fn u16_at(s: Seq<u8>) -> u16
    recommends
        s.len() >= 2,
{
    ((s[0] as u16) << 8u16) | (s[1] as u16)
}

pub open spec fn u32_at(s: Seq<u8>) -> u32
    recommends
        s.len() >= 4,
{
    ((s[0] as u32) << 24u32) | ((s[1] as u32) << 16u32) | ((s[2] as u32) << 8u32) | (s[3] as u32)
}

pub open spec fn u64_at(s: Seq<u8>) -> u64
    recommends
        s.len() >= 8,
{
    ((u32_at(s) as u64) << 32u64) | (u32_at(s.subrange(4, 8)) as u64)
}

pub open spec fn i16_at(s: Seq<u8>) -> i16 {
    u16_at(s) as i16
}

pub open spec fn i32_at(s: Seq<u8>) -> i32 {
    u32_at(s) as i32
}

pub open spec fn i64_at(s: Seq<u8>) -> i64 {
    u64_at(s) as i64
}

pub proof fn lemma_u16_roundtrip(x: u16, rest: Seq<u8>)
    ensures
        u16_at(u16_be(x) + rest) == x,
{
    let s = u16_be(x) + rest;
    assert(s[0] == (x >> 8u16) as u8 && s[1] == x as u8);
    assert((((x >> 8u16) as u8 as u16) << 8u16) | (x as u8 as u16) == x) by (bit_vector);
}

pub proof fn lemma_u32_roundtrip(x: u32, rest: Seq<u8>)
    ensures
        u32_at(u32_be(x) + rest) == x,
{
    let s = u32_be(x) + rest;
    assert(s[0] == (x >> 24u32) as u8 && s[1] == (x >> 16u32) as u8 && s[2] == (x >> 8u32) as u8
        && s[3] == x as u8);
    assert((((x >> 24u32) as u8 as u32) << 24u32) | (((x >> 16u32) as u8 as u32) << 16u32) | (((x
        >> 8u32) as u8 as u32) << 8u32) | (x as u8 as u32) == x) by (bit_vector);
}

pub proof fn lemma_u64_roundtrip(x: u64, rest: Seq<u8>)
    ensures
        u64_at(u64_be(x) + rest) == x,
{
    let s = u64_be(x) + rest;
    let hi = (x >> 32u64) as u32;
    let lo = x as u32;
    assert(s == u32_be(hi) + (u32_be(lo) + rest));
    lemma_u32_roundtrip(hi, u32_be(lo) + rest);
    assert(s.subrange(4, 8) == u32_be(lo) + Seq::<u8>::empty());
    lemma_u32_roundtrip(lo, Seq::<u8>::empty());
    assert((((x >> 32u64) as u32 as u64) << 32u64) | (x as u32 as u64) == x) by (bit_vector);
}

pub proof fn lemma_i16_roundtrip(x: i16, rest: Seq<u8>)
    ensures
        i16_at(i16_be(x) + rest) == x,
{
    lemma_u16_roundtrip(x as u16, rest);
    assert((x as u16) as i16 == x) by (bit_vector);
}

pub proof fn lemma_i32_roundtrip(x: i32, rest: Seq<u8>)
    ensures
        i32_at(i32_be(x) + rest) == x,
{
    lemma_u32_roundtrip(x as u32, rest);
    assert((x as u32) as i32 == x) by (bit_vector);
}

pub proof fn lemma_i64_roundtrip(x: i64, rest: Seq<u8>)
    ensures
        i64_at(i64_be(x) + rest) == x,
{
    lemma_u64_roundtrip(x as u64, rest);
    assert((x as u64) as i64 == x) by (bit_vector);
}

/// Reads the big-endian `u16` at `pos`.
pub fn read_u16(buf: &[u8], pos: usize) -> (r: u16)
    requires
        pos + 2 <= buf.len(),
    ensures
        r == u16_at(buf@.subrange(pos as int, buf@.len() as int)),
{
    ((buf[pos] as u16) << 8u16) | (buf[pos + 1] as u16)
}

pub fn read_u32(buf: &[u8], pos: usize) -> (r: u32)
    requires
        pos + 4 <= buf.len(),
    ensures
        r == u32_at(buf@.subrange(pos as int, buf@.len() as int)),
{
    ((buf[pos] as u32) << 24u32) | ((buf[pos + 1] as u32) << 16u32) | ((buf[pos + 2] as u32)
        << 8u32) | (buf[pos + 3] as u32)
}

pub fn read_u64(buf: &[u8], pos: usize) -> (r: u64)
    requires
        pos + 8 <= buf.len(),
    ensures
        r == u64_at(buf@.subrange(pos as int, buf@.len() as int)),
{
    let hi = read_u32(buf, pos);
    let lo = read_u32(buf, pos + 4);
    assert(buf@.subrange(pos as int, buf@.len() as int).subrange(4, 8) =~= buf@.subrange(
        pos + 4,
        buf@.len() as int,
    ).subrange(0, 4));
    assert(u32_at(buf@.subrange(pos + 4, buf@.len() as int)) == u32_at(
        buf@.subrange(pos + 4, buf@.len() as int).subrange(0, 4),
    ));
    ((hi as u64) << 32u64) | (lo as u64)
}

pub fn read_i16(buf: &[u8], pos: usize) -> (r: i16)
    requires
        pos + 2 <= buf.len(),
    ensures
        r == i16_at(buf@.subrange(pos as int, buf@.len() as int)),
{
    read_u16(buf, pos) as i16
}

pub fn read_i32(buf: &[u8], pos: usize) -> (r: i32)
    requires
        pos + 4 <= buf.len(),
    ensures
        r == i32_at(buf@.subrange(pos as int, buf@.len() as int)),
{
    read_u32(buf, pos) as i32
}

pub fn read_i64(buf: &[u8], pos: usize) -> (r: i64)
    requires
        pos + 8 <= buf.len(),
    ensures
        r == i64_at(buf@.subrange(pos as int, buf@.len() as int)),
{
    read_u64(buf, pos) as i64
}

/// Appends the big-endian bytes of `x`.
pub fn write_u16(out: &mut Vec<u8>, x: u16)
    ensures
        final(out)@ == old(out)@ + u16_be(x),
{
    out.push((x >> 8u16) as u8);
    out.push(x as u8);
}

pub fn write_u32(out: &mut Vec<u8>, x: u32)
    ensures
        final(out)@ == old(out)@ + u32_be(x),
{
    out.push((x >> 24u32) as u8);
    out.push((x >> 16u32) as u8);
    out.push((x >> 8u32) as u8);
    out.push(x as u8);
}

pub fn write_u64(out: &mut Vec<u8>, x: u64)
    ensures
        final(out)@ == old(out)@ + u64_be(x),
{
    write_u32(out, (x >> 32u64) as u32);
    write_u32(out, x as u32);
    assert(final(out)@ =~= old(out)@ + u64_be(x));
}

pub fn write_i16(out: &mut Vec<u8>, x: i16)
    ensures
        final(out)@ == old(out)@ + i16_be(x),
{
    write_u16(out, x as u16);
}

pub fn write_i32(out: &mut Vec<u8>, x: i32)
    ensures
        final(out)@ == old(out)@ + i32_be(x),
{
    write_u32(out, x as u32);
}

pub fn write_i64(out: &mut Vec<u8>, x: i64)
    ensures
        final(out)@ == old(out)@ + i64_be(x),
{
    write_u64(out, x as u64);
}

/// Appends all of `bytes`.
pub fn write_bytes(out: &mut Vec<u8>, bytes: &[u8])
    ensures
        final(out)@ == old(out)@ + bytes@,
{
    let mut i: usize = 0;
    while i < bytes.len()
        invariant
            i <= bytes@.len(),
            out@ == old(out)@ + bytes@.subrange(0, i as int),
        decreases bytes@.len() - i,
    {
        out.push(bytes[i]);
        i = i + 1;
        assert(out@ =~= old(out)@ + bytes@.subrange(0, i as int));
    }
    assert(bytes@.subrange(0, i as int) =~= bytes@);
}

} // verus!
