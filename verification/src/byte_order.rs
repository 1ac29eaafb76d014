//! Fixed width integers read from and written to byte buffers, through the
//! `byteorder` crate.

use byteorder::{BigEndian, ByteOrder, LittleEndian};
use vstd::prelude::*;

verus! {

/// The value of the four bytes of `s` at `off`, most significant first.
pub open spec fn be_u32_at(s: Seq<u8>, off: int) -> u32 {
    ((s[off] as u32) << 24u32) | ((s[off + 1] as u32) << 16u32) | ((s[off + 2] as u32) << 8u32)
        | (s[off + 3] as u32)
}

/// The value of the eight bytes of `s` at `off`, least significant first.
pub open spec fn le_u64_at(s: Seq<u8>, off: int) -> u64 {
    (s[off] as u64) | ((s[off + 1] as u64) << 8u64) | ((s[off + 2] as u64) << 16u64) | ((s[off
        + 3] as u64) << 24u64) | ((s[off + 4] as u64) << 32u64) | ((s[off + 5] as u64) << 40u64)
        | ((s[off + 6] as u64) << 48u64) | ((s[off + 7] as u64) << 56u64)
}

/// The eight bytes of `n`, least significant first.
pub open spec fn le_bytes_u64(n: u64) -> Seq<u8> {
    seq![
        (n & 0xff) as u8,
        ((n >> 8u64) & 0xff) as u8,
        ((n >> 16u64) & 0xff) as u8,
        ((n >> 24u64) & 0xff) as u8,
        ((n >> 32u64) & 0xff) as u8,
        ((n >> 40u64) & 0xff) as u8,
        ((n >> 48u64) & 0xff) as u8,
        ((n >> 56u64) & 0xff) as u8,
    ]
}

/// Reading back the eight bytes of `n` gives `n`.
pub proof fn lemma_le_u64_roundtrip(n: u64)
    ensures
        le_u64_at(le_bytes_u64(n), 0) == n,
{
    let b = le_bytes_u64(n);
    let (b0, b1, b2, b3, b4, b5, b6, b7) = (b[0], b[1], b[2], b[3], b[4], b[5], b[6], b[7]);
    assert(b0 == (n & 0xff) as u8 && b1 == ((n >> 8u64) & 0xff) as u8 && b2 == ((n >> 16u64)
        & 0xff) as u8 && b3 == ((n >> 24u64) & 0xff) as u8 && b4 == ((n >> 32u64) & 0xff) as u8
        && b5 == ((n >> 40u64) & 0xff) as u8 && b6 == ((n >> 48u64) & 0xff) as u8 && b7 == ((n
        >> 56u64) & 0xff) as u8);
    assert((b0 as u64) | ((b1 as u64) << 8u64) | ((b2 as u64) << 16u64) | ((b3 as u64) << 24u64)
        | ((b4 as u64) << 32u64) | ((b5 as u64) << 40u64) | ((b6 as u64) << 48u64) | ((b7 as u64)
        << 56u64) == n) by (bit_vector)
        requires
            b0 == (n & 0xff) as u8,
            b1 == ((n >> 8u64) & 0xff) as u8,
            b2 == ((n >> 16u64) & 0xff) as u8,
            b3 == ((n >> 24u64) & 0xff) as u8,
            b4 == ((n >> 32u64) & 0xff) as u8,
            b5 == ((n >> 40u64) & 0xff) as u8,
            b6 == ((n >> 48u64) & 0xff) as u8,
            b7 == ((n >> 56u64) & 0xff) as u8,
    ;
}

/// Calls `BigEndian::read_u32` on the four bytes of `buf` at `offset`: the
/// contract claims that it returns their value, most significant byte first.
#[verifier::external_body]
pub(crate) fn read_u32_be_at(buf: &[u8], offset: usize) -> (n: u32)
    requires
        offset + 4 <= buf@.len(),
    ensures
        n == be_u32_at(buf@, offset as int),
{
    BigEndian::read_u32(&buf[offset..offset + 4])
}

/// Calls `LittleEndian::read_u64` on the first eight bytes of `buf`: the
/// contract claims that it returns their value, least significant byte first.
#[verifier::external_body]
pub(crate) fn read_u64_le(buf: &[u8]) -> (n: u64)
    requires
        8 <= buf@.len(),
    ensures
        n == le_u64_at(buf@, 0),
{
    LittleEndian::read_u64(buf)
}

/// Calls `LittleEndian::write_u64` on `buf`: the contract claims that the
/// first eight bytes become those of `n`, least significant first, and that
/// the other bytes are left as they were.
#[verifier::external_body]
pub(crate) fn write_u64_le(buf: &mut [u8], n: u64)
    requires
        8 <= old(buf)@.len(),
    ensures
        final(buf)@ == le_bytes_u64(n) + old(buf)@.subrange(8, old(buf)@.len() as int),
{
    LittleEndian::write_u64(buf, n)
}

/// The four bytes of `n`, least significant first.
pub open spec fn le_bytes_u32(n: u32) -> Seq<u8> {
    seq![
        (n & 0xff) as u8,
        ((n >> 8u32) & 0xff) as u8,
        ((n >> 16u32) & 0xff) as u8,
        ((n >> 24u32) & 0xff) as u8,
    ]
}

/// Calls `LittleEndian::write_u32` on the four bytes of `buf` at `pos`: the
/// contract claims that they become those of `n`, least significant first,
/// and that the other bytes are left as they were.
#[verifier::external_body]
pub(crate) fn write_u32_le_at(buf: &mut Vec<u8>, pos: usize, n: u32)
    requires
        pos + 4 <= old(buf)@.len(),
    ensures
        final(buf)@ == old(buf)@.subrange(0, pos as int) + le_bytes_u32(n) + old(buf)@.subrange(
            pos + 4,
            old(buf)@.len() as int,
        ),
{
    LittleEndian::write_u32(&mut buf[pos..pos + 4], n)
}

} // verus!
