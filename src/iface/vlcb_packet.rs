//! A protocol packet ready to be sent: its header and a payload.

use vstd::prelude::*;
use crate::wire::vlcb::{header_octet, Packet, Repr as VlcbRepr};

verus! {

/// The payload of a packet, by the kind of socket it belongs to.
#[derive(Debug, PartialEq, Eq)]
pub enum VlcbPayload<'p> {
    /// Payload of a module packet.
    Module(&'p [u8]),
}

/// A packet header with its payload.
#[derive(Debug, PartialEq, Eq)]
pub struct VlcbPacket<'p> {
    header: VlcbRepr,
    payload: VlcbPayload<'p>,
}

impl<'p> VlcbPacket<'p> {
    /// The header.
    pub closed spec fn header_spec(&self) -> VlcbRepr {
        self.header
    }

    /// The payload octets.
    pub closed spec fn payload_spec(&self) -> Seq<u8> {
        match self.payload {
            VlcbPayload::Module(p) => p@,
        }
    }

    /// Pair a header with a payload.
    pub fn new(vlcb_repr: VlcbRepr, payload: VlcbPayload<'p>) -> (r: Self)
        ensures
            r.header_spec() == vlcb_repr,
            r.payload_spec() == match payload {
                VlcbPayload::Module(p) => p@,
            },
    {
        VlcbPacket { header: vlcb_repr, payload }
    }

    /// The header.
    pub fn vlcb_repr(&self) -> (r: VlcbRepr)
        ensures
            r == self.header_spec(),
    {
        self.header
    }

    /// The payload.
    pub fn payload(&self) -> (r: &VlcbPayload<'p>)
        ensures
            match *r {
                VlcbPayload::Module(p) => p@ == self.payload_spec(),
            },
    {
        &self.payload
    }

    /// The packet, written under the header `vlcb_repr`.
    pub fn emit_payload(&self, vlcb_repr: &VlcbRepr) -> (r: Packet)
        requires
            vlcb_repr.opcode < 32,
            vlcb_repr.data_len < 8,
            self.payload_spec().len() == vlcb_repr.data_len,
        ensures
            r@ == seq![header_octet(vlcb_repr.opcode, vlcb_repr.data_len)] + self.payload_spec(),
    {
        match &self.payload {
            VlcbPayload::Module(inner) => vlcb_repr.emit(inner),
        }
    }
}

} // verus!
