//! Node numbers and events of the protocol layer.

use vstd::prelude::*;
use crate::bits::{be16, read_be16, write_be16};

verus! {

/// Size of a node number in octets.
pub const NODENUM_SIZE: usize = 2;

/// A two-octet node number, big-endian; zero means unassigned.
#[derive(Debug, Clone, Copy, PartialEq, Eq, Hash, PartialOrd, Ord)]
pub struct VlcbNodeNumber(pub [u8; NODENUM_SIZE]);

impl Default for VlcbNodeNumber {
    fn default() -> (r: Self)
        ensures
            r.0@ == seq![0u8, 0u8],
    {
        VlcbNodeNumber::new(0, 0)
    }
}

impl VlcbNodeNumber {
    /// Build a node number from its two octets.
    pub fn new(a0: u8, a1: u8) -> (r: Self)
        ensures
            r.0@ == seq![a0, a1],
    {
        let r = VlcbNodeNumber([a0, a1]);
        assert(r.0@ =~= seq![a0, a1]);
        r
    }

    /// Build a node number from a two-octet slice.
    pub fn from_bytes(data: &[u8]) -> (r: Self)
        requires
            data@.len() == NODENUM_SIZE,
        ensures
            r.0@ == data@,
    {
        let r = VlcbNodeNumber([data[0], data[1]]);
        assert(r.0@ =~= data@);
        r
    }

    /// The two octets of the node number.
    pub fn as_bytes(&self) -> (r: &[u8])
        ensures
            r@ == self.0@,
    {
        self.0.as_slice()
    }
}

/// Size of an event in octets.
pub const EVENT_SIZE: usize = 4;

/// Kinds of event messages.
#[derive(Debug, Clone, Copy, PartialEq, Eq)]
pub enum EventType {
    /// Not known to this library.
    Unknown,
    /// Accessory changed to on.
    AccessoryOn,
    /// Accessory changed to off.
    AccessoryOff,
    /// Accessory reports on, in answer to a query.
    AccessoryStatusOn,
    /// Accessory reports off, in answer to a query.
    AccessoryStatusOff,
}

/// A four-octet event: a node-number part and an event-number part. A
/// short event carries its node-number part zeroed, and consumers ignore it;
/// the flag takes part in equality.
#[derive(Debug, Clone, Copy, PartialEq, Eq, Hash, PartialOrd, Ord, Default)]
pub struct EventId {
    data: [u8; EVENT_SIZE],
    is_short: bool,
}

impl EventId {
    /// The four octets of the event.
    pub closed spec fn bytes(self) -> Seq<u8> {
        self.data@
    }

    /// Whether the event is short.
    pub closed spec fn short(self) -> bool {
        self.is_short
    }

    /// Two events are the same value exactly when their octets and flags are.
    pub proof fn lemma_eq(self, other: EventId)
        ensures
            (self == other) <==> (self.bytes() == other.bytes() && self.short() == other.short()),
    {
        if self.bytes() == other.bytes() {
            assert(self.data@ =~= other.data@);
            assert(self.data == other.data);
        }
    }

    /// Build an event from its flag and octets.
    pub fn new(short: bool, a0: u8, a1: u8, a2: u8, a3: u8) -> (r: Self)
        ensures
            r.bytes() == seq![a0, a1, a2, a3],
            r.short() == short,
    {
        let r = EventId { data: [a0, a1, a2, a3], is_short: short };
        assert(r.data@ =~= seq![a0, a1, a2, a3]);
        r
    }

    /// Build a long event from four octets.
    pub fn from_bytes(data: &[u8]) -> (r: Self)
        requires
            data@.len() == EVENT_SIZE,
        ensures
            r.bytes() == data@,
            !r.short(),
    {
        let r = EventId { data: [data[0], data[1], data[2], data[3]], is_short: false };
        assert(r.data@ =~= data@);
        r
    }

    /// Build a short event from four octets: the node-number part is zeroed.
    pub fn short_from_bytes(data: &[u8]) -> (r: Self)
        requires
            data@.len() == EVENT_SIZE,
        ensures
            r.bytes() == seq![0u8, 0u8, data@[2], data@[3]],
            r.short(),
    {
        let r = EventId { data: [0, 0, data[2], data[3]], is_short: true };
        assert(r.data@ =~= seq![0u8, 0u8, data@[2], data@[3]]);
        r
    }

    /// Build an event from a node number and an event number.
    pub fn from_node_and_id(node_num: &VlcbNodeNumber, evt_id: u16, short: bool) -> (r: Self)
        ensures
            r.bytes().subrange(0, 2) == node_num.0@,
            be16(r.bytes()[2], r.bytes()[3]) == evt_id,
            r.bytes().len() == EVENT_SIZE,
            r.short() == short,
    {
        let (hi, lo) = write_be16(evt_id);
        let r = EventId { data: [node_num.0[0], node_num.0[1], hi, lo], is_short: short };
        assert(r.data@.subrange(0, 2) =~= node_num.0@);
        r
    }

    /// The four octets of the event.
    pub fn as_bytes(&self) -> (r: &[u8])
        ensures
            r@ == self.bytes(),
    {
        self.data.as_slice()
    }

    /// The node-number part.
    pub fn node_num(&self) -> (r: VlcbNodeNumber)
        ensures
            r.0@ == self.bytes().subrange(0, 2),
    {
        let r = VlcbNodeNumber([self.data[0], self.data[1]]);
        assert(r.0@ =~= self.data@.subrange(0, 2));
        r
    }

    /// The event-number part.
    pub fn event_num(&self) -> (r: u16)
        ensures
            r == be16(self.bytes()[2], self.bytes()[3]),
    {
        read_be16(self.data[2], self.data[3])
    }

    /// Whether the event is short.
    pub fn is_short(&self) -> (r: bool)
        ensures
            r == self.short(),
    {
        self.is_short
    }

    /// Whether the event is long.
    pub fn is_long(&self) -> (r: bool)
        ensures
            r == !self.short(),
    {
        !self.is_short
    }
}

/// A short event and a long event are never equal, whatever their octets.
pub proof fn lemma_short_long_distinct(short: EventId, long: EventId)
    requires
        short.short(),
        !long.short(),
    ensures
        short != long,
{
}

} // verus!
