//! Fixed-width integers as they lie on the wire.

use byteorder::{BigEndian, ByteOrder, LittleEndian, WriteBytesExt};
use vstd::prelude::*;

verus! {

/// The first two bytes of `b`, most significant first.
pub open spec fn be_u16(b: Seq<u8>) -> int
    recommends
        b.len() >= 2,
{
    b[0] as int * 0x100 + b[1] as int
}

/// The first three bytes of `b`, most significant first.
pub open spec fn be_u24(b: Seq<u8>) -> int
    recommends
        b.len() >= 3,
{
    b[0] as int * 0x1_0000 + b[1] as int * 0x100 + b[2] as int
}

/// The first four bytes of `b`, most significant first.
pub open spec fn be_u32(b: Seq<u8>) -> int
    recommends
        b.len() >= 4,
{
    b[0] as int * 0x100_0000 + b[1] as int * 0x1_0000 + b[2] as int * 0x100 + b[3] as int
}

/// The first four bytes of `b`, least significant first.
pub open spec fn le_u32(b: Seq<u8>) -> int
    recommends
        b.len() >= 4,
{
    b[0] as int + b[1] as int * 0x100 + b[2] as int * 0x1_0000 + b[3] as int * 0x100_0000
}

/// `n` in two bytes, most significant first.
pub open spec fn u16_be_bytes(n: u16) -> Seq<u8> {
    seq![(n / 0x100) as u8, (n % 0x100) as u8]
}

/// `n` in three bytes, most significant first.
pub open spec fn u24_be_bytes(n: u32) -> Seq<u8>
    recommends
        n < 0x100_0000,
{
    seq![(n / 0x1_0000 % 0x100) as u8, (n / 0x100 % 0x100) as u8, (n % 0x100) as u8]
}

/// `n` in four bytes, most significant first.
pub open spec fn u32_be_bytes(n: u32) -> Seq<u8> {
    seq![
        (n / 0x100_0000) as u8,
        (n / 0x1_0000 % 0x100) as u8,
        (n / 0x100 % 0x100) as u8,
        (n % 0x100) as u8,
    ]
}

/// `n` in eight bytes, most significant first.
pub open spec fn u64_be_bytes(n: u64) -> Seq<u8> {
    seq![
        (n / 0x100_0000_0000_0000) as u8,
        (n / 0x1_0000_0000_0000 % 0x100) as u8,
        (n / 0x100_0000_0000 % 0x100) as u8,
        (n / 0x1_0000_0000 % 0x100) as u8,
        (n / 0x100_0000 % 0x100) as u8,
        (n / 0x1_0000 % 0x100) as u8,
        (n / 0x100 % 0x100) as u8,
        (n % 0x100) as u8,
    ]
}

/// `n` in four bytes, least significant first.
pub open spec fn u32_le_bytes(n: u32) -> Seq<u8> {
    seq![
        (n % 0x100) as u8,
        (n / 0x100 % 0x100) as u8,
        (n / 0x1_0000 % 0x100) as u8,
        (n / 0x100_0000) as u8,
    ]
}

/// `byteorder::BigEndian::read_u16`: the integer whose big-endian form is the
/// first two bytes of the buffer. It panics on a shorter buffer.
#[verifier::external_body]
pub(crate) fn read_u16_be(bytes: &[u8]) -> (r: u16)
    requires
        bytes@.len() >= 2,
    ensures
        r == be_u16(bytes@),
{
    BigEndian::read_u16(bytes)
}

/// `byteorder::BigEndian::read_u24`: the integer whose big-endian form is the
/// first three bytes of the buffer. It panics on a shorter buffer.
#[verifier::external_body]
pub(crate) fn read_u24_be(bytes: &[u8]) -> (r: u32)
    requires
        bytes@.len() >= 3,
    ensures
        r == be_u24(bytes@),
{
    BigEndian::read_u24(bytes)
}

/// `byteorder::BigEndian::read_u32`: the integer whose big-endian form is the
/// first four bytes of the buffer. It panics on a shorter buffer.
#[verifier::external_body]
pub(crate) fn read_u32_be(bytes: &[u8]) -> (r: u32)
    requires
        bytes@.len() >= 4,
    ensures
        r == be_u32(bytes@),
{
    BigEndian::read_u32(bytes)
}

/// `byteorder::LittleEndian::read_u32`: the integer whose little-endian form
/// is the first four bytes of the buffer. It panics on a shorter buffer.
#[verifier::external_body]
pub(crate) fn read_u32_le(bytes: &[u8]) -> (r: u32)
    requires
        bytes@.len() >= 4,
    ensures
        r == le_u32(bytes@),
{
    LittleEndian::read_u32(bytes)
}

/// `byteorder::WriteBytesExt::write_u16` on a `Vec<u8>`, which never fails:
/// the two bytes of `n`, most significant first, are appended.
#[verifier::external_body]
pub(crate) fn write_u16_be(writer: &mut Vec<u8>, n: u16)
    ensures
        final(writer)@ == old(writer)@ + u16_be_bytes(n),
{
    let _ = writer.write_u16::<BigEndian>(n);
}

/// `byteorder::WriteBytesExt::write_u24` on a `Vec<u8>`, which never fails:
/// the three bytes of `n`, most significant first, are appended. It panics
/// when `n` does not fit in three bytes.
#[verifier::external_body]
pub(crate) fn write_u24_be(writer: &mut Vec<u8>, n: u32)
    requires
        n < 0x100_0000,
    ensures
        final(writer)@ == old(writer)@ + u24_be_bytes(n),
{
    let _ = writer.write_u24::<BigEndian>(n);
}

/// `byteorder::WriteBytesExt::write_u32` on a `Vec<u8>`, which never fails:
/// the four bytes of `n`, most significant first, are appended.
#[verifier::external_body]
pub(crate) fn write_u32_be(writer: &mut Vec<u8>, n: u32)
    ensures
        final(writer)@ == old(writer)@ + u32_be_bytes(n),
{
    let _ = writer.write_u32::<BigEndian>(n);
}

/// `byteorder::WriteBytesExt::write_u64` on a `Vec<u8>`, which never fails:
/// the eight bytes of `n`, most significant first, are appended.
#[verifier::external_body]
pub(crate) fn write_u64_be(writer: &mut Vec<u8>, n: u64)
    ensures
        final(writer)@ == old(writer)@ + u64_be_bytes(n),
{
    let _ = writer.write_u64::<BigEndian>(n);
}

/// `byteorder::WriteBytesExt::write_u32` on a `Vec<u8>`, which never fails:
/// the four bytes of `n`, least significant first, are appended.
#[verifier::external_body]
pub(crate) fn write_u32_le(writer: &mut Vec<u8>, n: u32)
    ensures
        final(writer)@ == old(writer)@ + u32_le_bytes(n),
{
    let _ = writer.write_u32::<LittleEndian>(n);
}

/// Appends `bytes` to `writer`.
pub fn append(writer: &mut Vec<u8>, bytes: &[u8])
    ensures
        final(writer)@ == old(writer)@ + bytes@,
{
    writer.extend_from_slice(bytes);
    assert(writer@ =~= old(writer)@ + bytes@);
}

/// Reading back what was written in big-endian order gives the number.
pub proof fn lemma_be_round_trip(a: u16, b: u32, c: u32)
    requires
        b < 0x100_0000,
    ensures
        u16_be_bytes(a).len() == 2,
        u24_be_bytes(b).len() == 3,
        u32_be_bytes(c).len() == 4,
        be_u16(u16_be_bytes(a)) == a,
        be_u24(u24_be_bytes(b)) == b,
        be_u32(u32_be_bytes(c)) == c,
{
}

/// Reading back what was written in little-endian order gives the number.
pub proof fn lemma_le_round_trip(n: u32)
    ensures
        u32_le_bytes(n).len() == 4,
        le_u32(u32_le_bytes(n)) == n,
{
}

} // verus!
