//! Mask-and-insert helpers for bit-packed header fields, and big-endian
//! two-octet integers.

use vstd::prelude::*;

verus! {

/// The value of a big-endian two-octet integer.
pub open spec fn be16(hi: u8, lo: u8) -> u16 {
    ((hi as u16) << 8u16) | (lo as u16)
}

/// Replace the bits of `orig` selected by `mask` with those of `value`,
/// leaving every other bit untouched.
pub fn mask_and_insert_u16(orig: u16, value: u16, mask: u16) -> (r: u16)
    ensures
        r == (orig & !mask) | (value & mask),
        r & mask == value & mask,
        r & !mask == orig & !mask,
{
    let r = (orig & !mask) | (value & mask);
    assert(r & mask == value & mask) by (bit_vector)
        requires
            r == (orig & !mask) | (value & mask),
    ;
    assert(r & !mask == orig & !mask) by (bit_vector)
        requires
            r == (orig & !mask) | (value & mask),
    ;
    r
}

/// Read a big-endian two-octet integer.
pub fn read_be16(hi: u8, lo: u8) -> (r: u16)
    ensures
        r == be16(hi, lo),
        r >> 8u16 == hi as u16,
        r & 0xffu16 == lo as u16,
{
    let h = hi as u16;
    let l = lo as u16;
    let r = (h << 8u16) | l;
    assert(r >> 8u16 == h && r & 0xffu16 == l) by (bit_vector)
        requires
            r == (h << 8u16) | l,
            h <= 255u16 && l <= 255u16,
    ;
    r
}

/// Split a two-octet integer into its big-endian octets.
pub fn write_be16(v: u16) -> (r: (u8, u8))
    ensures
        be16(r.0, r.1) == v,
        r.0 as u16 == v >> 8u16,
        r.1 as u16 == v & 0xffu16,
{
    let h = v >> 8u16;
    let l = v & 0xffu16;
    assert(h <= 255u16 && l <= 255u16 && (h << 8u16) | l == v) by (bit_vector)
        requires
            h == v >> 8u16,
            l == v & 0xffu16,
    ;
    (h as u8, l as u8)
}

} // verus!
