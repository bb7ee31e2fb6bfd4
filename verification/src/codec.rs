//! Fixed-width integers as they appear on the wire, and the byte-buffer
//! operations of the `bytes` crate that read and write them.

use bytes::{Buf, BufMut};
use vstd::prelude::*;

verus! {

/// The four bytes of `v`, least significant first.
pub open spec fn le32_bytes(v: u32) -> Seq<u8> {
    seq![
        (v % 256) as u8,
        ((v / 256) % 256) as u8,
        ((v / 0x1_0000) % 256) as u8,
        (v / 0x100_0000) as u8,
    ]
}

/// The four bytes of `v`, most significant first.
pub open spec fn be32_bytes(v: u32) -> Seq<u8> {
    seq![
        (v / 0x100_0000) as u8,
        ((v / 0x1_0000) % 256) as u8,
        ((v / 256) % 256) as u8,
        (v % 256) as u8,
    ]
}

/// The number whose little-endian bytes are `b0, b1, b2, b3`.
pub open spec fn le32_value(b0: u8, b1: u8, b2: u8, b3: u8) -> u32 {
    (b0 + 256 * b1 + 0x1_0000 * b2 + 0x100_0000 * b3) as u32
}

/// `v` with its four bytes in reverse order: what a little-endian read gives
/// back of a big-endian write.
pub open spec fn byte_swap32(v: u32) -> u32 {
    let b = be32_bytes(v);
    le32_value(b[0], b[1], b[2], b[3])
}

/// Reading the little-endian bytes of a 32-bit number gives the number back.
pub proof fn lemma_le32_roundtrip(v: u32)
    ensures
        le32_value(le32_bytes(v)[0], le32_bytes(v)[1], le32_bytes(v)[2], le32_bytes(v)[3]) == v,
{
    assert((v % 256) + 256 * ((v / 256) % 256) + 0x1_0000 * ((v / 0x1_0000) % 256) + 0x100_0000 * (
    v / 0x100_0000) == v) by (bit_vector);
}

/// Reversing the bytes of a 32-bit number twice gives the number back.
pub proof fn lemma_byte_swap32_involution(v: u32)
    ensures
        byte_swap32(byte_swap32(v)) == v,
{
    let w = byte_swap32(v);
    assert(w == (v / 0x100_0000) + 256 * ((v / 0x1_0000) % 256) + 0x1_0000 * ((v / 256) % 256)
        + 0x100_0000 * (v % 256));
    assert(byte_swap32(w) == (w / 0x100_0000) + 256 * ((w / 0x1_0000) % 256) + 0x1_0000 * ((w
        / 256) % 256) + 0x100_0000 * (w % 256));
    assert(((v / 0x100_0000) + 256 * ((v / 0x1_0000) % 256) + 0x1_0000 * ((v / 256) % 256)
        + 0x100_0000 * (v % 256)) / 0x100_0000 == v % 256) by (bit_vector);
    assert((((v / 0x100_0000) + 256 * ((v / 0x1_0000) % 256) + 0x1_0000 * ((v / 256) % 256)
        + 0x100_0000 * (v % 256)) / 0x1_0000) % 256 == (v / 256) % 256) by (bit_vector);
    assert((((v / 0x100_0000) + 256 * ((v / 0x1_0000) % 256) + 0x1_0000 * ((v / 256) % 256)
        + 0x100_0000 * (v % 256)) / 256) % 256 == (v / 0x1_0000) % 256) by (bit_vector);
    assert(((v / 0x100_0000) + 256 * ((v / 0x1_0000) % 256) + 0x1_0000 * ((v / 256) % 256)
        + 0x100_0000 * (v % 256)) % 256 == v / 0x100_0000) by (bit_vector);
    assert((v % 256) + 256 * ((v / 256) % 256) + 0x1_0000 * ((v / 0x1_0000) % 256) + 0x100_0000 * (
    v / 0x100_0000) == v) by (bit_vector);
}

/// `BufMut::put_u32_le` of `bytes` on a `Vec<u8>`: appends the four
/// little-endian bytes of `v`.
#[verifier::external_body]
pub(crate) fn put_u32_le(buf: &mut Vec<u8>, v: u32)
    requires
        old(buf)@.len() + 4 <= isize::MAX,
    ensures
        final(buf)@ == old(buf)@ + le32_bytes(v),
{
    buf.put_u32_le(v)
}

/// `BufMut::put_u32` of `bytes` on a `Vec<u8>`: appends the four big-endian
/// bytes of `v`.
#[verifier::external_body]
pub(crate) fn put_u32(buf: &mut Vec<u8>, v: u32)
    requires
        old(buf)@.len() + 4 <= isize::MAX,
    ensures
        final(buf)@ == old(buf)@ + be32_bytes(v),
{
    buf.put_u32(v)
}

/// `BufMut::put_u8` of `bytes` on a `Vec<u8>`: appends `v`.
#[verifier::external_body]
pub(crate) fn put_u8(buf: &mut Vec<u8>, v: u8)
    requires
        old(buf)@.len() + 1 <= isize::MAX,
    ensures
        final(buf)@ == old(buf)@.push(v),
{
    buf.put_u8(v)
}

/// `Buf::get_u32_le` of `bytes` on the slice of `src` that starts at `pos`:
/// the little-endian number in the four bytes there.
#[verifier::external_body]
pub(crate) fn get_u32_le(src: &[u8], pos: usize) -> (v: u32)
    requires
        pos + 4 <= src@.len(),
    ensures
        v == le32_value(src@[pos as int], src@[pos + 1], src@[pos + 2], src@[pos + 3]),
{
    let mut rest: &[u8] = &src[pos..];
    rest.get_u32_le()
}

/// `Buf::get_u8` of `bytes` on the slice of `src` that starts at `pos`: the
/// byte there.
#[verifier::external_body]
pub(crate) fn get_u8(src: &[u8], pos: usize) -> (v: u8)
    requires
        pos + 1 <= src@.len(),
    ensures
        v == src@[pos as int],
{
    let mut rest: &[u8] = &src[pos..];
    rest.get_u8()
}

} // verus!
