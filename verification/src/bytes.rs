//! Little-endian byte pairs.

use vstd::prelude::*;

verus! {

/// The word whose low byte is `lsb` and high byte is `msb`.
pub fn u16_from_le(lsb: u8, msb: u8) -> (r: u16)
    ensures
        r == msb * 256 + lsb,
{
    let r = ((msb as u16) << 8) | (lsb as u16);
    assert(((msb as u16) << 8) | (lsb as u16) == msb * 256 + lsb) by (bit_vector);
    r
}

/// The low and the high byte of `v`.
pub fn u16_to_le(v: u16) -> (r: (u8, u8))
    ensures
        r.0 == v % 256,
        r.1 == v / 256,
{
    assert((v & 0xFF) as u8 == v % 256 && (v >> 8) as u8 == v / 256) by (bit_vector);
    ((v & 0xFF) as u8, (v >> 8) as u8)
}

} // verus!
