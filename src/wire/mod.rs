//! Wire formats: the bus frame and the protocol packet it carries.

use vstd::prelude::*;
use crate::can::{VlcbCanId, CANID_SIZE};
use crate::phy::Medium;

pub mod can;
pub mod vlcb;

verus! {

/// A buffer could not be parsed: it is malformed, or not supported.
#[derive(Debug, Clone, Copy, PartialEq, Eq)]
pub struct Error;

/// The hardware address of a node, per transport medium.
#[derive(Debug, Clone, Copy, PartialEq, Eq, Hash)]
pub enum HardwareAddress {
    /// Bus address on a CAN bus.
    CAN(VlcbCanId),
}

impl Default for HardwareAddress {
    fn default() -> (r: HardwareAddress)
        ensures
            r == HardwareAddress::CAN(VlcbCanId([0u8])),
    {
        HardwareAddress::CAN(VlcbCanId([0u8]))
    }
}

impl HardwareAddress {
    /// The octets of the address.
    pub open spec fn bytes(self) -> Seq<u8> {
        match self {
            HardwareAddress::CAN(id) => seq![id.value()],
        }
    }

    /// The octets of the address.
    pub fn as_bytes(&self) -> (r: &[u8])
        ensures
            r@ == self.bytes(),
    {
        match self {
            HardwareAddress::CAN(id) => id.as_bytes(),
        }
    }

    /// The bus address held.
    pub fn can_id(&self) -> (r: VlcbCanId)
        ensures
            self == HardwareAddress::CAN(r),
    {
        match self {
            HardwareAddress::CAN(id) => *id,
        }
    }

    /// The medium that the address belongs to.
    pub fn medium(&self) -> (r: Medium)
        ensures
            r == Medium::CAN,
    {
        match self {
            HardwareAddress::CAN(_) => Medium::CAN,
        }
    }
}

/// Largest number of octets of a hardware address.
pub const MAX_HARDWARE_ADDRESS_LEN: usize = 2;

/// A hardware address that has not been parsed yet.
#[derive(Debug, Clone, Copy, PartialEq, Eq, Hash, Default)]
pub struct RawHardwareAddress {
    len: u8,
    data: [u8; MAX_HARDWARE_ADDRESS_LEN],
}

impl View for RawHardwareAddress {
    type V = Seq<u8>;

    closed spec fn view(&self) -> Seq<u8> {
        self.data@.subrange(0, self.len as int)
    }
}

impl RawHardwareAddress {
    /// The stored length never exceeds the storage.
    pub closed spec fn wf(self) -> bool {
        self.len as usize <= MAX_HARDWARE_ADDRESS_LEN
    }

    /// Copy up to two octets.
    pub fn from_bytes(addr: &[u8]) -> (r: Self)
        requires
            addr@.len() <= MAX_HARDWARE_ADDRESS_LEN,
        ensures
            r.wf(),
            r@ == addr@,
    {
        let mut data = [0u8; MAX_HARDWARE_ADDRESS_LEN];
        let mut i: usize = 0;
        while i < addr.len()
            invariant
                addr@.len() <= MAX_HARDWARE_ADDRESS_LEN,
                i <= addr@.len(),
                forall|k: int| 0 <= k < i ==> data@[k] == addr@[k],
            decreases addr@.len() - i,
        {
            data[i] = addr[i];
            i = i + 1;
        }
        let r = RawHardwareAddress { len: addr.len() as u8, data };
        assert(r@ =~= addr@);
        r
    }

    /// The octets held.
    pub fn as_bytes(&self) -> (r: &[u8])
        requires
            self.wf(),
        ensures
            r@ == self@,
    {
        vstd::slice::slice_subrange(self.data.as_slice(), 0, self.len as usize)
    }

    /// Number of octets held.
    pub fn len(&self) -> (r: usize)
        requires
            self.wf(),
        ensures
            r == self@.len(),
    {
        self.len as usize
    }

    /// Whether no octet is held.
    pub fn is_empty(&self) -> (r: bool)
        requires
            self.wf(),
        ensures
            r == (self@.len() == 0),
    {
        self.len == 0
    }

    /// Parse as an address of the given medium: a bus address is exactly
    /// one octet, whose top bit is dropped.
    pub fn parse(&self, medium: Medium) -> (r: Result<HardwareAddress, Error>)
        requires
            self.wf(),
        ensures
            self@.len() == CANID_SIZE <==> r is Ok,
            r matches Ok(HardwareAddress::CAN(id)) ==> id.value() == self@[0] & 0x7f,
    {
        match medium {
            Medium::CAN => {
                if self.len() != CANID_SIZE {
                    return Err(Error);
                }
                let addr = VlcbCanId::from_bytes(self.as_bytes());
                Ok(HardwareAddress::CAN(addr))
            },
        }
    }
}

} // verus!
