//! Extension packets: a reserved operation code followed by an extension
//! octet, which names one of 256 further operations, and up to six octets
//! of payload.

use vstd::prelude::*;
use crate::wire::vlcb::{header_octet, Protocol, Repr as VlcbRepr, OPCODE_MASK};

verus! {

/// Largest payload of an extension packet, in octets.
pub const EXT_MAX_PAYLOAD: usize = 6;

/// Relies on `vlcb_defs::OpCode::ExtOpCode`, the extension operation with no
/// payload, and its code.
#[verifier::external_body]
fn ext_opcode_code() -> (r: u8)
    ensures
        r == 63,
{
    vlcb_defs::OpCode::ExtOpCode.into()
}

/// The octets of an extension packet.
pub open spec fn ext_packet(opcode_ext: u8, payload: Seq<u8>) -> Seq<u8> {
    seq![header_octet(31, (payload.len() + 1) as u8), opcode_ext] + payload
}

/// The extension packet for operation `opcode_ext` with the given payload.
pub fn from_bytes(opcode_ext: u8, payload: &[u8]) -> (r: Vec<u8>)
    requires
        payload@.len() <= EXT_MAX_PAYLOAD,
    ensures
        r@ == ext_packet(opcode_ext, payload@),
{
    let opcode = ext_opcode_code() & OPCODE_MASK;
    assert(63u8 & 0x1fu8 == 31u8) by (bit_vector);
    let mut body: Vec<u8> = Vec::new();
    body.push(opcode_ext);
    let mut i: usize = 0;
    while i < payload.len()
        invariant
            i <= payload@.len(),
            body@ == seq![opcode_ext] + payload@.subrange(0, i as int),
        decreases payload@.len() - i,
    {
        body.push(payload[i]);
        i = i + 1;
        assert(body@ =~= seq![opcode_ext] + payload@.subrange(0, i as int));
    }
    assert(payload@.subrange(0, i as int) =~= payload@);
    let repr = VlcbRepr::new(opcode, (payload.len() + 1) as u8, Protocol::Module);
    let packet = repr.emit(body.as_slice());
    let r = packet.into_inner();
    assert(r@ =~= ext_packet(opcode_ext, payload@));
    r
}

/// The extension packet for operation `opcode_ext` with no payload.
pub fn no_data(opcode_ext: u8) -> (r: Vec<u8>)
    ensures
        r@ == ext_packet(opcode_ext, Seq::empty()),
{
    let empty: [u8; 0] = [];
    let r = from_bytes(opcode_ext, empty.as_slice());
    assert(empty@ =~= Seq::<u8>::empty());
    r
}

} // verus!
