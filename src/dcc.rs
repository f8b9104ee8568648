//! Locomotive addresses and states of the DCC command layer.

use vstd::prelude::*;
use crate::bits::write_be16;

verus! {

/// A locomotive address: short (7-bit) or long (14-bit), as two octets,
/// big-endian.
#[derive(Debug, Clone, Copy, PartialEq, Eq)]
pub struct LocoAddress(pub [u8; 2], pub bool);

impl LocoAddress {
    /// A short address.
    pub fn new(addr: u8) -> (r: Self)
        ensures
            r.0@ == seq![0u8, addr],
            !r.1,
    {
        let r = LocoAddress([0u8, addr], false);
        assert(r.0@ =~= seq![0u8, addr]);
        r
    }

    /// A long address.
    pub fn new_long(addr: u16) -> (r: Self)
        ensures
            r.0@ == seq![(addr >> 8u16) as u8, (addr & 0xffu16) as u8],
            r.1,
    {
        let (hi, lo) = write_be16(addr);
        let r = LocoAddress([hi, lo], true);
        assert(r.0@ =~= seq![(addr >> 8u16) as u8, (addr & 0xffu16) as u8]);
        r
    }

    /// Whether the address is long.
    pub fn is_long(&self) -> (r: bool)
        ensures
            r == self.1,
    {
        self.1
    }

    /// The two octets of the address.
    pub fn as_bytes(&self) -> (r: [u8; 2])
        ensures
            r == self.0,
    {
        self.0
    }

    /// The two octets as a packet carries them: a short address has its
    /// high octet cleared, a long address its two top bits set.
    pub fn as_bytes_sanitized(&self) -> (r: [u8; 2])
        ensures
            self.1 ==> r@ == seq![self.0@[0] | 0xc0u8, self.0@[1]],
            !self.1 ==> r@ == seq![0u8, self.0@[1]],
    {
        let mut bytes = self.as_bytes();
        if self.is_long() {
            bytes[0] = bytes[0] | 0xc0;
        } else {
            bytes[0] = 0;
        }
        assert(self.1 ==> bytes@ =~= seq![self.0@[0] | 0xc0u8, self.0@[1]]);
        assert(!self.1 ==> bytes@ =~= seq![0u8, self.0@[1]]);
        bytes
    }
}

/// State of a locomotive.
#[derive(Debug, Clone, Copy, PartialEq, Eq)]
pub enum EngineState {
    Active,
    Consisted,
    ConsistMaster,
    Inactive,
}

/// A range of locomotive functions.
#[derive(Debug, Clone, Copy, PartialEq, Eq)]
pub enum EngineFunctionRange {
    F0ToF4,
    F5ToF8,
    F9ToF12,
    F13ToF20,
    F21ToF28,
}

/// How a session request treats a locomotive already in use.
#[derive(Debug, Clone, Copy, PartialEq, Eq)]
pub enum SessionQueryMode {
    Default,
    Steal,
    Share,
}

} // verus!
