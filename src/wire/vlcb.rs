//! The protocol packet carried in a frame's payload: one header octet that
//! packs an operation code (low five bits) and a payload length (top three
//! bits), followed by the payload.

use vstd::prelude::*;
use super::Error;

verus! {

/// Sub-protocol of a packet, used to route it to a kind of socket.
#[derive(Debug, Clone, Copy, PartialEq, Eq)]
pub enum Protocol {
    /// Every operation that is not tied to a specific sub-protocol.
    Module,
    /// The long-message sub-protocol.
    LongMsg,
}

/// Size of a protocol address in octets.
pub const ADDR_SIZE: usize = 2;

/// Largest payload of a packet carried in one frame, header included.
pub const VLCB_MAX_PAYLOAD: usize = 8;

/// A two-octet protocol address, big-endian.
#[derive(Debug, Clone, Copy, PartialEq, Eq, Hash, PartialOrd, Ord, Default)]
pub struct Address(pub [u8; ADDR_SIZE]);

impl Address {
    /// Build an address from its two octets.
    pub fn new(a0: u8, a1: u8) -> (r: Address)
        ensures
            r.0@ == seq![a0, a1],
    {
        let r = Address([a0, a1]);
        assert(r.0@ =~= seq![a0, a1]);
        r
    }

    /// Build an address from a two-octet slice.
    pub fn from_bytes(data: &[u8]) -> (r: Address)
        requires
            data@.len() == ADDR_SIZE,
        ensures
            r.0@ == data@,
    {
        let r = Address([data[0], data[1]]);
        assert(r.0@ =~= data@);
        r
    }

    /// The two octets of the address.
    pub fn as_bytes(&self) -> (r: &[u8])
        ensures
            r@ == self.0@,
    {
        self.0.as_slice()
    }
}

/// The bits of the header octet that hold the operation code.
pub const OPCODE_MASK: u8 = 0x1f;

/// The bits of the header octet that hold the payload length.
pub const DATA_LEN_MASK: u8 = 0xe0;

/// Position of the payload length in the header octet.
pub const DATA_LEN_SHIFT: u8 = 5;

/// Length of the packet header in octets.
pub const HEADER_LEN: usize = 1;

/// Whether a code is one of the protocol's operation codes.
pub uninterp spec fn is_opcode(code: u8) -> bool;

/// The codes below 32 that the protocol's table declares.
pub open spec fn is_base_opcode(code: u8) -> bool {
    code <= 10 || code == 12 || code == 13 || code == 16 || code == 17
}

/// Relies on `TryFrom<u8>` for `vlcb_defs::OpCode`: it succeeds exactly for
/// the codes that the table declares, which below 32 are 0 to 10, 12, 13,
/// 16 and 17.
#[verifier::external_body]
fn opcode_known(code: u8) -> (r: bool)
    ensures
        r == is_opcode(code),
        code < 32 ==> (r <==> is_base_opcode(code)),
{
    vlcb_defs::OpCode::try_from(code).is_ok()
}

/// Relies on `vlcb_defs::OpCode::StreamPacket`, the operation that opens the
/// long-message sub-protocol, and its code.
#[verifier::external_body]
fn stream_packet_code() -> (r: u8)
    ensures
        r == 233,
{
    vlcb_defs::OpCode::StreamPacket.into()
}

/// The operation code held in a header octet.
pub open spec fn opcode_of(h: u8) -> u8 {
    h & OPCODE_MASK
}

/// The payload length held in a header octet.
pub open spec fn payload_len_of(h: u8) -> u8 {
    (h & DATA_LEN_MASK) >> DATA_LEN_SHIFT
}

/// The header octet of a packet with the given operation code and length.
pub open spec fn header_octet(opcode: u8, len: u8) -> u8 {
    (opcode & OPCODE_MASK) | ((len << DATA_LEN_SHIFT) & DATA_LEN_MASK)
}

/// The sub-protocol that an operation code selects. The long-message
/// operation has code 233, which five bits never hold: read from a header
/// octet, every code selects the module sub-protocol.
pub open spec fn protocol_of(opcode: u8) -> Protocol {
    if opcode == 233 {
        Protocol::LongMsg
    } else {
        Protocol::Module
    }
}

/// Whether a buffer holds a header and the payload that it declares.
pub open spec fn packet_len_ok(b: Seq<u8>) -> bool {
    b.len() >= HEADER_LEN && b.len() >= HEADER_LEN + payload_len_of(b[0])
}

/// The payload of a packet buffer, as its header declares it.
pub open spec fn packet_payload(b: Seq<u8>) -> Seq<u8> {
    b.subrange(HEADER_LEN as int, HEADER_LEN + payload_len_of(b[0]))
}

/// Writing an operation code below 32 and a length below 8 into a header
/// octet and reading them back gives the same pair.
pub proof fn lemma_packet_header_round_trip(opcode: u8, len: u8)
    requires
        opcode < 32,
        len < 8,
    ensures
        opcode_of(header_octet(opcode, len)) == opcode,
        payload_len_of(header_octet(opcode, len)) == len,
{
    assert(((opcode & 0x1fu8) | ((len << 5u8) & 0xe0u8)) & 0x1fu8 == opcode
        && (((opcode & 0x1fu8) | ((len << 5u8) & 0xe0u8)) & 0xe0u8) >> 5u8 == len) by (bit_vector)
        requires
            opcode < 32u8,
            len < 8u8,
    ;
}

/// A view of a byte buffer as a protocol packet.
#[derive(Debug, Clone, PartialEq, Eq)]
pub struct Packet {
    buffer: Vec<u8>,
}

impl View for Packet {
    type V = Seq<u8>;

    closed spec fn view(&self) -> Seq<u8> {
        self.buffer@
    }
}

impl Packet {
    /// Wrap a buffer without checking it.
    pub fn new_unchecked(buffer: Vec<u8>) -> (r: Packet)
        ensures
            r@ == buffer@,
    {
        Packet { buffer }
    }

    /// Wrap a buffer that holds a header and the payload it declares.
    pub fn new_checked(buffer: Vec<u8>) -> (r: Result<Packet, Error>)
        ensures
            r is Ok <==> packet_len_ok(buffer@),
            r matches Ok(p) ==> p@ == buffer@,
    {
        let packet = Packet::new_unchecked(buffer);
        match packet.check_len() {
            Ok(()) => Ok(packet),
            Err(e) => Err(e),
        }
    }

    /// Check that the buffer holds a header and the payload that the header
    /// declares, so that no accessor can fail.
    pub fn check_len(&self) -> (r: Result<(), Error>)
        ensures
            r is Ok <==> packet_len_ok(self@),
    {
        let len = self.buffer.len();
        if len < HEADER_LEN {
            Err(Error)
        } else if len < self.total_len() as usize {
            Err(Error)
        } else {
            Ok(())
        }
    }

    /// The underlying buffer.
    pub fn into_inner(self) -> (r: Vec<u8>)
        ensures
            r@ == self@,
    {
        self.buffer
    }

    /// Length of the header in octets.
    pub fn header_len(&self) -> (r: u8)
        ensures
            r == HEADER_LEN,
    {
        HEADER_LEN as u8
    }

    /// Length of the header and the declared payload, in octets.
    pub fn total_len(&self) -> (r: u8)
        requires
            self@.len() >= HEADER_LEN,
        ensures
            r == HEADER_LEN + payload_len_of(self@[0]),
    {
        let h = self.buffer[0];
        assert((h & 0xe0u8) >> 5u8 < 8u8) by (bit_vector);
        HEADER_LEN as u8 + self.payload_len()
    }

    /// The operation code.
    pub fn opcode(&self) -> (r: u8)
        requires
            self@.len() >= HEADER_LEN,
        ensures
            r == opcode_of(self@[0]),
            r < 32,
    {
        let h = self.buffer[0];
        assert(h & 0x1fu8 < 32u8) by (bit_vector);
        h & OPCODE_MASK
    }

    /// The declared payload length.
    pub fn payload_len(&self) -> (r: u8)
        requires
            self@.len() >= HEADER_LEN,
        ensures
            r == payload_len_of(self@[0]),
            r < 8,
    {
        let h = self.buffer[0];
        assert((h & 0xe0u8) >> 5u8 < 8u8) by (bit_vector);
        (h & DATA_LEN_MASK) >> DATA_LEN_SHIFT
    }

    /// The sub-protocol that the operation code selects.
    pub fn next_header(&self) -> (r: Protocol)
        requires
            self@.len() >= HEADER_LEN,
        ensures
            r == protocol_of(opcode_of(self@[0])),
    {
        if self.opcode() == stream_packet_code() {
            Protocol::LongMsg
        } else {
            Protocol::Module
        }
    }

    /// The payload, as long as the header declares.
    pub fn payload(&self) -> (r: &[u8])
        requires
            packet_len_ok(self@),
        ensures
            r@ == packet_payload(self@),
    {
        let end = self.total_len() as usize;
        vstd::slice::slice_subrange(self.buffer.as_slice(), HEADER_LEN, end)
    }

    /// The payload, as long as the header declares, to be changed in place.
    pub fn payload_mut(&mut self) -> (r: &mut [u8])
        requires
            packet_len_ok(old(self)@),
        ensures
            r@ == packet_payload(old(self)@),
            final(self)@ == old(self)@.subrange(0, HEADER_LEN as int) + final(r)@ + old(self)@.subrange(
                HEADER_LEN + payload_len_of(old(self)@[0]),
                old(self)@.len() as int,
            ),
    {
        let len = self.payload_len() as usize;
        let (_, rest) = self.buffer.as_mut_slice().split_at_mut(HEADER_LEN);
        let (payload, _) = rest.split_at_mut(len);
        payload
    }

    /// Set the operation code; the payload length is kept.
    pub fn set_opcode(&mut self, value: u8)
        requires
            old(self)@.len() >= HEADER_LEN,
        ensures
            final(self)@ == old(self)@.update(0, (old(self)@[0] & !OPCODE_MASK) | (value & OPCODE_MASK)),
            opcode_of(final(self)@[0]) == value & OPCODE_MASK,
            payload_len_of(final(self)@[0]) == payload_len_of(old(self)@[0]),
    {
        let h = self.buffer[0];
        let n = (h & !OPCODE_MASK) | (value & OPCODE_MASK);
        assert(n & 0x1fu8 == value & 0x1fu8 && (n & 0xe0u8) >> 5u8 == (h & 0xe0u8) >> 5u8) by (bit_vector)
            requires
                n == (h & !0x1fu8) | (value & 0x1fu8),
        ;
        self.buffer.set(0, n);
    }

    /// Set the payload length from the low three bits of `value`; the
    /// operation code is kept.
    pub fn set_payload_len(&mut self, value: u8)
        requires
            old(self)@.len() >= HEADER_LEN,
        ensures
            final(self)@ == old(self)@.update(
                0,
                (old(self)@[0] & !DATA_LEN_MASK) | ((value << DATA_LEN_SHIFT) & DATA_LEN_MASK),
            ),
            payload_len_of(final(self)@[0]) == value & 7,
            opcode_of(final(self)@[0]) == opcode_of(old(self)@[0]),
    {
        let h = self.buffer[0];
        let n = (h & !DATA_LEN_MASK) | ((value << DATA_LEN_SHIFT) & DATA_LEN_MASK);
        assert((n & 0xe0u8) >> 5u8 == value & 7u8 && n & 0x1fu8 == h & 0x1fu8) by (bit_vector)
            requires
                n == (h & !0xe0u8) | ((value << 5u8) & 0xe0u8),
        ;
        self.buffer.set(0, n);
    }
}

/// A parsed packet header.
#[derive(Debug, Clone, Copy, PartialEq, Eq)]
pub struct Repr {
    /// Payload length.
    pub data_len: u8,
    /// Operation code.
    pub opcode: u8,
    /// Sub-protocol selected by the operation code.
    pub next_header: Protocol,
}

impl Repr {
    /// Build a header from its fields.
    pub fn new(opcode: u8, data_len: u8, next_header: Protocol) -> (r: Repr)
        ensures
            r == (Repr { data_len, opcode, next_header }),
    {
        Repr { data_len, opcode, next_header }
    }

    /// Parse the header of a packet; fails when the operation code is not one
    /// of the protocol's.
    pub fn parse(packet: &Packet) -> (r: Result<Repr, Error>)
        requires
            packet@.len() >= HEADER_LEN,
        ensures
            r is Ok <==> is_opcode(opcode_of(packet@[0])),
            r is Ok <==> is_base_opcode(opcode_of(packet@[0])),
            r matches Ok(repr) ==> repr.opcode < 32 && repr.data_len < 8,
            r matches Ok(repr) ==> repr == (Repr {
                data_len: payload_len_of(packet@[0]),
                opcode: opcode_of(packet@[0]),
                next_header: protocol_of(opcode_of(packet@[0])),
            }),
    {
        let opcode = packet.opcode();
        if !opcode_known(opcode) {
            return Err(Error);
        }
        Ok(Repr { data_len: packet.payload_len(), opcode, next_header: packet.next_header() })
    }

    /// Length of the header that `emit` writes.
    pub fn header_len(&self) -> (r: usize)
        ensures
            r == HEADER_LEN,
    {
        HEADER_LEN
    }

    /// The sub-protocol of the packet.
    pub fn next_header(&self) -> (r: Protocol)
        ensures
            r == self.next_header,
    {
        self.next_header
    }

    /// Write this header into `packet`, then let `emit_payload` fill the
    /// payload that the header declares, in place.
    pub fn emit_with<F>(&self, packet: &mut Packet, emit_payload: F)
        where
            F: FnOnce(&mut [u8]),
        requires
            self.opcode < 32,
            self.data_len < 8,
            old(packet)@.len() >= HEADER_LEN + self.data_len,
            forall|b: &mut [u8]| #[trigger] emit_payload.requires((b,)),
        ensures
            exists|b: &mut [u8]| {
                &&& #[trigger] emit_payload.ensures((b,), ())
                &&& (*b)@ == old(packet)@.subrange(HEADER_LEN as int, HEADER_LEN + self.data_len)
                &&& final(packet)@ == seq![header_octet(self.opcode, self.data_len)] + (*final(b))@
                    + old(packet)@.subrange(HEADER_LEN + self.data_len, old(packet)@.len() as int)
            },
    {
        packet.set_opcode(self.opcode);
        packet.set_payload_len(self.data_len);
        proof {
            let h = old(packet)@[0];
            let op = self.opcode;
            let len = self.data_len;
            assert((((h & !0x1fu8) | (op & 0x1fu8)) & !0xe0u8) | ((len << 5u8) & 0xe0u8)
                == (op & 0x1fu8) | ((len << 5u8) & 0xe0u8)) by (bit_vector);
            assert(len < 8u8 ==> len & 7u8 == len) by (bit_vector);
        }
        let payload = packet.payload_mut();
        emit_payload(payload);
        assert(packet@ =~= seq![header_octet(self.opcode, self.data_len)] + payload@
            + old(packet)@.subrange(HEADER_LEN + self.data_len, old(packet)@.len() as int));
    }

    /// Build a packet with this header followed by `payload`.
    pub fn emit(&self, payload: &[u8]) -> (r: Packet)
        requires
            self.opcode < 32,
            self.data_len < 8,
            payload@.len() == self.data_len,
        ensures
            r@ == seq![header_octet(self.opcode, self.data_len)] + payload@,
            packet_len_ok(r@),
            packet_payload(r@) == payload@,
    {
        let h = (self.opcode & OPCODE_MASK) | ((self.data_len << DATA_LEN_SHIFT) & DATA_LEN_MASK);
        let mut buffer: Vec<u8> = Vec::new();
        buffer.push(h);
        let mut i: usize = 0;
        while i < payload.len()
            invariant
                i <= payload@.len(),
                buffer@ == seq![h] + payload@.subrange(0, i as int),
            decreases payload@.len() - i,
        {
            buffer.push(payload[i]);
            i = i + 1;
            assert(buffer@ =~= seq![h] + payload@.subrange(0, i as int));
        }
        assert(payload@.subrange(0, i as int) =~= payload@);
        proof {
            lemma_packet_header_round_trip(self.opcode, self.data_len);
        }
        assert(packet_payload(buffer@) =~= payload@);
        Packet { buffer }
    }
}

} // verus!
