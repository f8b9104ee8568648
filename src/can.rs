//! Bus addresses (CAN identifiers) of nodes.

use vstd::prelude::*;
use vstd::string::{StrSliceExecFns, StringExecFns};

verus! {

/// Size of a bus address in octets.
pub const CANID_SIZE: usize = 1;

/// The bits of an octet that a bus address keeps.
pub const CANID_MASK: u8 = 0x7f;

/// A 7-bit bus address identifying a node at the arbitration level.
#[derive(Debug, Clone, Copy, PartialEq, Eq, Hash, PartialOrd, Ord, Default)]
pub struct VlcbCanId(pub [u8; CANID_SIZE]);

impl VlcbCanId {
    /// The address as a number.
    pub open spec fn value(self) -> u8 {
        self.0[0]
    }

    /// A bus address is well formed when its top bit is clear.
    pub open spec fn wf(self) -> bool {
        self.value() < 128
    }

    /// Build a bus address from a one-octet slice, clearing the top bit.
    pub fn from_bytes(data: &[u8]) -> (r: Self)
        requires
            data@.len() == CANID_SIZE,
        ensures
            r == VlcbCanId([data@[0] & CANID_MASK]),
            r.value() == data@[0] & CANID_MASK,
            r.value() < 128,
            r.wf(),
    {
        let x = data[0];
        let b = x & CANID_MASK;
        assert(x & 0x7f < 128) by (bit_vector);
        VlcbCanId([b])
    }

    /// The address as a one-octet slice.
    pub fn as_bytes(&self) -> (r: &[u8])
        ensures
            r@ == seq![self.value()],
    {
        let r = self.0.as_slice();
        assert(r@ =~= seq![self.value()]);
        r
    }

    /// The address as two upper-case hexadecimal digits.
    pub fn to_string(&self) -> (r: String)
        ensures
            r@ == seq![hex_digit(self.value() / 16), hex_digit(self.value() % 16)],
    {
        hex_octet(self.0[0])
    }
}

/// The upper-case hexadecimal digits, in order of value.
pub const HEX_DIGITS: &'static str = "0123456789ABCDEF";

/// The upper-case hexadecimal digit of a value below sixteen.
pub open spec fn hex_digit(v: u8) -> char {
    HEX_DIGITS@[v as int]
}

/// An octet as two upper-case hexadecimal digits, high nibble first.
fn hex_octet(v: u8) -> (r: String)
    ensures
        r@ == seq![hex_digit(v / 16), hex_digit(v % 16)],
{
    proof {
        reveal_strlit("0123456789ABCDEF");
    }
    let hi = (v / 16) as usize;
    let lo = (v % 16) as usize;
    let mut s = String::from_str(HEX_DIGITS.substring_char(hi, hi + 1));
    s.append(HEX_DIGITS.substring_char(lo, lo + 1));
    assert(s@ =~= seq![hex_digit(v / 16), hex_digit(v % 16)]);
    s
}

} // verus!
