//! Big-endian numbers in a byte buffer.

use byteorder::{BigEndian, ByteOrder};
use vstd::prelude::*;
use vstd::slice::slice_subrange;

verus! {

/// The 16-bit big-endian number held by the two bytes of `s` from `i` on.
pub open spec fn be16(s: Seq<u8>, i: int) -> u16
    recommends
        0 <= i,
        i + 2 <= s.len(),
{
    (s[i] as int * 0x100 + s[i + 1] as int) as u16
}

/// The 24-bit big-endian number held by the three bytes of `s` from `i` on.
pub open spec fn be24(s: Seq<u8>, i: int) -> u32
    recommends
        0 <= i,
        i + 3 <= s.len(),
{
    (s[i] as int * 0x1_0000 + s[i + 1] as int * 0x100 + s[i + 2] as int) as u32
}

/// The 32-bit big-endian number held by the four bytes of `s` from `i` on.
pub open spec fn be32(s: Seq<u8>, i: int) -> u32
    recommends
        0 <= i,
        i + 4 <= s.len(),
{
    (s[i] as int * 0x100_0000 + s[i + 1] as int * 0x1_0000 + s[i + 2] as int * 0x100 + s[i
        + 3] as int) as u32
}

/// Trusted: `byteorder::BigEndian::read_u16`. It reads the first two bytes
/// of `buf`, most significant first, and panics on a shorter buffer.
#[verifier::external_body]
fn big_endian_u16(buf: &[u8]) -> (r: u16)
    requires
        buf@.len() >= 2,
    ensures
        r == be16(buf@, 0),
{
    BigEndian::read_u16(buf)
}

/// Trusted: `byteorder::BigEndian::read_u24`. It reads the first three
/// bytes of `buf`, most significant first, and panics on a shorter buffer.
#[verifier::external_body]
fn big_endian_u24(buf: &[u8]) -> (r: u32)
    requires
        buf@.len() >= 3,
    ensures
        r == be24(buf@, 0),
{
    BigEndian::read_u24(buf)
}

/// Trusted: `byteorder::BigEndian::read_u32`. It reads the first four bytes
/// of `buf`, most significant first, and panics on a shorter buffer.
#[verifier::external_body]
fn big_endian_u32(buf: &[u8]) -> (r: u32)
    requires
        buf@.len() >= 4,
    ensures
        r == be32(buf@, 0),
{
    BigEndian::read_u32(buf)
}

/// The big-endian `u16` that starts at `pos`.
pub(crate) fn u16_at(data: &[u8], pos: usize) -> (r: u16)
    requires
        pos + 2 <= data@.len(),
    ensures
        r == be16(data@, pos as int),
{
    let len = data.len();
    assert(pos + 2 <= len);
    big_endian_u16(slice_subrange(data, pos, pos + 2))
}

/// The big-endian 24-bit number that starts at `pos`.
pub(crate) fn u24_at(data: &[u8], pos: usize) -> (r: u32)
    requires
        pos + 3 <= data@.len(),
    ensures
        r == be24(data@, pos as int),
{
    let len = data.len();
    assert(pos + 3 <= len);
    big_endian_u24(slice_subrange(data, pos, pos + 3))
}

/// The big-endian `u32` that starts at `pos`.
pub(crate) fn u32_at(data: &[u8], pos: usize) -> (r: u32)
    requires
        pos + 4 <= data@.len(),
    ensures
        r == be32(data@, pos as int),
{
    let len = data.len();
    assert(pos + 4 <= len);
    big_endian_u32(slice_subrange(data, pos, pos + 4))
}

} // verus!
