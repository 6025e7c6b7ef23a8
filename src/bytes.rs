use byteorder::ByteOrder;
use vstd::prelude::*;

verus! {

/// The 16-bit value of a high byte followed by a low byte.
pub open spec fn be_value(hi: u8, lo: u8) -> u16 {
    (hi as int * 256 + lo as int) as u16
}

/// Relies on byteorder's `BigEndian::read_u16`: the first of two bytes is the high one.
#[verifier::external_body]
pub(crate) fn be_word(hi: u8, lo: u8) -> (r: u16)
    ensures
        r == be_value(hi, lo),
{
    byteorder::BigEndian::read_u16(&[hi, lo])
}

/// Relies on byteorder's `LittleEndian::read_u16`: the first of two bytes is the low one.
#[verifier::external_body]
pub(crate) fn le_word(lo: u8, hi: u8) -> (r: u16)
    ensures
        r == be_value(hi, lo),
{
    byteorder::LittleEndian::read_u16(&[lo, hi])
}

/// Relies on byteorder's `LittleEndian::write_u16`: the low byte is written first.
#[verifier::external_body]
pub(crate) fn le_bytes(w: u16) -> (r: (u8, u8))
    ensures
        r.0 == w % 256,
        r.1 == w / 256,
{
    let mut buf = [0u8; 2];
    byteorder::LittleEndian::write_u16(&mut buf, w);
    (buf[0], buf[1])
}

} // verus!
