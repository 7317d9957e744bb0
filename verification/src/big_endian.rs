//! Big-endian integers in a byte sink.
//!
//! Every multi-byte integer of a class file is big-endian. The bytes are
//! produced by the `byteorder` crate; the functions here append them to an
//! in-memory sink and say which bytes those are.

use byteorder::{BigEndian, WriteBytesExt};
use vstd::prelude::*;

verus! {

/// The two bytes of `value`, most significant first.
pub open spec fn u16_be(value: u16) -> Seq<u8> {
    seq![(value / 0x100) as u8, (value % 0x100) as u8]
}

/// The four bytes of `value`, most significant first.
pub open spec fn u32_be(value: u32) -> Seq<u8> {
    seq![
        (value / 0x100_0000) as u8,
        (value / 0x1_0000 % 0x100) as u8,
        (value / 0x100 % 0x100) as u8,
        (value % 0x100) as u8,
    ]
}

/// The two's-complement bytes of `value`, most significant first.
pub open spec fn i16_be(value: i16) -> Seq<u8> {
    if value < 0 {
        u16_be((value + 0x1_0000) as u16)
    } else {
        u16_be(value as u16)
    }
}

/// The two's-complement bytes of `value`, most significant first.
pub open spec fn i32_be(value: i32) -> Seq<u8> {
    if value < 0 {
        u32_be((value + 0x1_0000_0000) as u32)
    } else {
        u32_be(value as u32)
    }
}

/// Appends `bytes` as they are.
pub fn append_bytes(sink: &mut Vec<u8>, bytes: &[u8])
    ensures
        final(sink)@ == old(sink)@ + bytes@,
{
    sink.extend_from_slice(bytes);
    assert(sink@ =~= old(sink)@ + bytes@);
}

/// Appends an unsigned 16-bit integer. Calls
/// `byteorder::WriteBytesExt::write_u16::<BigEndian>` on the vector, which
/// appends the integer's two bytes, most significant first.
#[verifier::external_body]
pub(crate) fn write_u16(sink: &mut Vec<u8>, value: u16)
    ensures
        final(sink)@ == old(sink)@ + u16_be(value),
{
    sink.write_u16::<BigEndian>(value).unwrap()
}

/// Appends a signed 16-bit integer. Calls
/// `byteorder::WriteBytesExt::write_i16::<BigEndian>` on the vector, which
/// appends the two bytes of the integer's two's-complement form, most
/// significant first.
#[verifier::external_body]
pub(crate) fn write_i16(sink: &mut Vec<u8>, value: i16)
    ensures
        final(sink)@ == old(sink)@ + i16_be(value),
{
    sink.write_i16::<BigEndian>(value).unwrap()
}

/// Appends an unsigned 32-bit integer. Calls
/// `byteorder::WriteBytesExt::write_u32::<BigEndian>` on the vector, which
/// appends the integer's four bytes, most significant first.
#[verifier::external_body]
pub(crate) fn write_u32(sink: &mut Vec<u8>, value: u32)
    ensures
        final(sink)@ == old(sink)@ + u32_be(value),
{
    sink.write_u32::<BigEndian>(value).unwrap()
}

/// Appends a signed 32-bit integer. Calls
/// `byteorder::WriteBytesExt::write_i32::<BigEndian>` on the vector, which
/// appends the four bytes of the integer's two's-complement form, most
/// significant first.
#[verifier::external_body]
pub(crate) fn write_i32(sink: &mut Vec<u8>, value: i32)
    ensures
        final(sink)@ == old(sink)@ + i32_be(value),
{
    sink.write_i32::<BigEndian>(value).unwrap()
}

} // verus!
