//! The bus frame: a two-octet header followed by up to eight octets of
//! payload.
//!
//! The header is a big-endian 16-bit word laid out as follows:
//! bit 15 is the remote-request flag, bits 7 and 8 hold the priority and
//! bits 0 to 6 the source bus address. The other bits are carried through
//! untouched.

use vstd::prelude::*;
use crate::bits::{be16, mask_and_insert_u16, read_be16, write_be16};
use crate::can::VlcbCanId;
use super::Error;

verus! {

/// Frame priority: four levels, `Low` by default.
#[derive(Debug, Clone, Copy, PartialEq, Eq, PartialOrd, Ord)]
pub enum Priority {
    High,
    AboveNormal,
    Normal,
    Low,
}

impl Default for Priority {
    fn default() -> (r: Priority)
        ensures
            r == Priority::Low,
    {
        Priority::Low
    }
}

/// The two-bit code of a priority.
pub open spec fn priority_code(p: Priority) -> u16 {
    match p {
        Priority::High => 0,
        Priority::AboveNormal => 1,
        Priority::Normal => 2,
        Priority::Low => 3,
    }
}

/// The priority of a two-bit code.
pub open spec fn priority_of_code(c: u16) -> Priority {
    if c == 0 {
        Priority::High
    } else if c == 1 {
        Priority::AboveNormal
    } else if c == 2 {
        Priority::Normal
    } else {
        Priority::Low
    }
}

impl Priority {
    /// The two-bit code of the priority.
    pub fn code(&self) -> (r: u16)
        ensures
            r == priority_code(*self),
            r < 4,
    {
        match self {
            Priority::High => 0,
            Priority::AboveNormal => 1,
            Priority::Normal => 2,
            Priority::Low => 3,
        }
    }

    /// The priority of a code; codes above three fall back to `Low`.
    pub fn from_code(c: u16) -> (r: Priority)
        ensures
            r == priority_of_code(c),
    {
        if c == 0 {
            Priority::High
        } else if c == 1 {
            Priority::AboveNormal
        } else if c == 2 {
            Priority::Normal
        } else {
            Priority::Low
        }
    }
}

/// The bit of the header that marks a remote-request frame.
pub const HEADER_RTR_MASK: u16 = 0x8000;

/// The bits of the header that hold the source bus address.
pub const HEADER_ADDR_MASK: u16 = 0x007f;

/// The bits of the header that hold the priority.
pub const HEADER_PRIORITY_MASK: u16 = 0x0180;

/// Position of the priority field in the header.
pub const PRIORITY_SHIFT: u16 = 7;

/// Length of the frame header in octets.
pub const HEADER_LEN: usize = 2;

/// Largest payload of a frame in octets.
pub const MAX_PAYLOAD_LEN: usize = 8;

/// The header word of a frame buffer.
pub open spec fn header_of(b: Seq<u8>) -> u16 {
    be16(b[0], b[1])
}

/// The source bus address held in a header word.
pub open spec fn header_addr(h: u16) -> u8 {
    (h & HEADER_ADDR_MASK) as u8
}

/// The priority held in a header word.
pub open spec fn header_priority(h: u16) -> Priority {
    priority_of_code((h & HEADER_PRIORITY_MASK) >> PRIORITY_SHIFT)
}

/// The remote-request flag held in a header word.
pub open spec fn header_rtr(h: u16) -> bool {
    h & HEADER_RTR_MASK != 0
}

/// The header word that holds the given fields, every other bit clear.
pub open spec fn header_word(addr: u8, prio: Priority, rtr: bool) -> u16 {
    (if rtr { HEADER_RTR_MASK } else { 0u16 })
        | ((priority_code(prio) << PRIORITY_SHIFT) & HEADER_PRIORITY_MASK)
        | ((addr as u16) & HEADER_ADDR_MASK)
}

/// Whether a buffer is long enough for a header and holds at most eight
/// octets of payload.
pub open spec fn frame_len_ok(b: Seq<u8>) -> bool {
    HEADER_LEN <= b.len() <= HEADER_LEN + MAX_PAYLOAD_LEN
}

/// The octets of a frame with the given fields and payload.
pub open spec fn frame_bytes(addr: u8, prio: Priority, rtr: bool, payload: Seq<u8>) -> Seq<u8> {
    let h = header_word(addr, prio, rtr);
    seq![(h >> 8u16) as u8, (h & 0xffu16) as u8] + payload
}

/// What the header fields of a frame hold, read back from a header word:
/// the address comes back with its top bit cleared.
pub proof fn lemma_header_fields(addr: u8, prio: Priority, rtr: bool)
    ensures
        header_addr(header_word(addr, prio, rtr)) == addr & 0x7f,
        header_priority(header_word(addr, prio, rtr)) == prio,
        header_rtr(header_word(addr, prio, rtr)) == rtr,
{
    let c = priority_code(prio);
    let a = addr as u16;
    let h = header_word(addr, prio, rtr);
    assert(c < 4);
    if rtr {
        assert(((0x8000u16 | ((c << 7u16) & 0x0180u16) | (a & 0x7fu16)) & 0x7fu16) == a & 0x7fu16
            && ((0x8000u16 | ((c << 7u16) & 0x0180u16) | (a & 0x7fu16)) & 0x0180u16) >> 7u16 == c
            && (0x8000u16 | ((c << 7u16) & 0x0180u16) | (a & 0x7fu16)) & 0x8000u16 != 0) by (bit_vector)
            requires
                c < 4u16,
        ;
    } else {
        assert(((0u16 | ((c << 7u16) & 0x0180u16) | (a & 0x7fu16)) & 0x7fu16) == a & 0x7fu16
            && ((0u16 | ((c << 7u16) & 0x0180u16) | (a & 0x7fu16)) & 0x0180u16) >> 7u16 == c
            && (0u16 | ((c << 7u16) & 0x0180u16) | (a & 0x7fu16)) & 0x8000u16 == 0) by (bit_vector)
            requires
                c < 4u16,
        ;
    }
    assert((a & 0x7fu16) as u8 == addr & 0x7fu8) by (bit_vector)
        requires
            a == addr as u16,
    ;
}

/// A view of a byte buffer as a bus frame.
#[derive(Debug, Clone)]
pub struct Frame {
    buffer: Vec<u8>,
}

impl View for Frame {
    type V = Seq<u8>;

    closed spec fn view(&self) -> Seq<u8> {
        self.buffer@
    }
}

impl Frame {
    /// Wrap a buffer without checking it.
    pub fn new_unchecked(buffer: Vec<u8>) -> (r: Frame)
        ensures
            r@ == buffer@,
    {
        Frame { buffer }
    }

    /// Wrap a buffer whose length suits a frame.
    pub fn new_checked(buffer: Vec<u8>) -> (r: Result<Frame, Error>)
        ensures
            r is Ok <==> frame_len_ok(buffer@),
            r matches Ok(f) ==> f@ == buffer@,
    {
        let frame = Frame::new_unchecked(buffer);
        match frame.check_len() {
            Ok(()) => Ok(frame),
            Err(e) => Err(e),
        }
    }

    /// Check that the buffer holds a header and at most eight octets of
    /// payload, so that no accessor can fail.
    pub fn check_len(&self) -> (r: Result<(), Error>)
        ensures
            r is Ok <==> frame_len_ok(self@),
    {
        let len = self.buffer.len();
        if len < HEADER_LEN || len - HEADER_LEN > MAX_PAYLOAD_LEN {
            Err(Error)
        } else {
            Ok(())
        }
    }

    /// The underlying buffer.
    pub fn into_inner(self) -> (r: Vec<u8>)
        ensures
            r@ == self@,
    {
        self.buffer
    }

    /// Length of the frame header.
    pub fn header_len() -> (r: usize)
        ensures
            r == HEADER_LEN,
    {
        HEADER_LEN
    }

    /// Length of a buffer that holds a frame with `payload_len` octets of
    /// payload.
    pub fn buffer_len(payload_len: usize) -> (r: usize)
        requires
            payload_len <= usize::MAX - HEADER_LEN,
        ensures
            r == HEADER_LEN + payload_len,
    {
        HEADER_LEN + payload_len
    }

    fn header(&self) -> (r: u16)
        requires
            self@.len() >= HEADER_LEN,
        ensures
            r == header_of(self@),
    {
        read_be16(self.buffer[0], self.buffer[1])
    }

    fn set_header(&mut self, h: u16)
        requires
            old(self)@.len() >= HEADER_LEN,
        ensures
            final(self)@.len() == old(self)@.len(),
            header_of(final(self)@) == h,
            final(self)@.subrange(HEADER_LEN as int, final(self)@.len() as int)
                == old(self)@.subrange(HEADER_LEN as int, old(self)@.len() as int),
    {
        let (hi, lo) = write_be16(h);
        self.buffer.set(0, hi);
        self.buffer.set(1, lo);
        assert(final(self)@.subrange(HEADER_LEN as int, final(self)@.len() as int)
            =~= old(self)@.subrange(HEADER_LEN as int, old(self)@.len() as int));
    }

    /// The source bus address.
    pub fn src_addr(&self) -> (r: VlcbCanId)
        requires
            self@.len() >= HEADER_LEN,
        ensures
            r == VlcbCanId([header_addr(header_of(self@))]),
            r.value() == header_addr(header_of(self@)),
            r.wf(),
    {
        let h = self.header();
        let a = h & HEADER_ADDR_MASK;
        assert(a < 128u16) by (bit_vector)
            requires
                a == h & 0x7fu16,
        ;
        VlcbCanId([a as u8])
    }

    /// The frame priority.
    pub fn priority(&self) -> (r: Priority)
        requires
            self@.len() >= HEADER_LEN,
        ensures
            r == header_priority(header_of(self@)),
    {
        let h = self.header();
        Priority::from_code((h & HEADER_PRIORITY_MASK) >> PRIORITY_SHIFT)
    }

    /// Whether the frame is a remote-request frame.
    pub fn is_rtr(&self) -> (r: bool)
        requires
            self@.len() >= HEADER_LEN,
        ensures
            r == header_rtr(header_of(self@)),
    {
        self.header() & HEADER_RTR_MASK != 0
    }

    /// The payload: every octet after the header.
    pub fn payload(&self) -> (r: &[u8])
        requires
            self@.len() >= HEADER_LEN,
        ensures
            r@ == self@.subrange(HEADER_LEN as int, self@.len() as int),
    {
        vstd::slice::slice_subrange(self.buffer.as_slice(), HEADER_LEN, self.buffer.len())
    }

    /// The payload, to be changed in place.
    pub fn payload_mut(&mut self) -> (r: &mut [u8])
        requires
            old(self)@.len() >= HEADER_LEN,
        ensures
            r@ == old(self)@.subrange(HEADER_LEN as int, old(self)@.len() as int),
            final(self)@ == old(self)@.subrange(0, HEADER_LEN as int) + final(r)@,
    {
        let (_, payload) = self.buffer.as_mut_slice().split_at_mut(HEADER_LEN);
        payload
    }

    /// Set the source bus address; the other header bits are kept.
    pub fn set_src_addr(&mut self, value: VlcbCanId)
        requires
            old(self)@.len() >= HEADER_LEN,
        ensures
            final(self)@.len() == old(self)@.len(),
            header_of(final(self)@) == mask_and_insert_spec(header_of(old(self)@), value.value() as u16, HEADER_ADDR_MASK),
            final(self)@.subrange(HEADER_LEN as int, final(self)@.len() as int)
                == old(self)@.subrange(HEADER_LEN as int, old(self)@.len() as int),
    {
        let h = self.header();
        let n = mask_and_insert_u16(h, value.0[0] as u16, HEADER_ADDR_MASK);
        self.set_header(n);
    }

    /// Set the priority; the other header bits are kept.
    pub fn set_priority(&mut self, priority: Priority)
        requires
            old(self)@.len() >= HEADER_LEN,
        ensures
            final(self)@.len() == old(self)@.len(),
            header_of(final(self)@) == mask_and_insert_spec(
                header_of(old(self)@),
                priority_code(priority) << PRIORITY_SHIFT,
                HEADER_PRIORITY_MASK,
            ),
            final(self)@.subrange(HEADER_LEN as int, final(self)@.len() as int)
                == old(self)@.subrange(HEADER_LEN as int, old(self)@.len() as int),
    {
        let h = self.header();
        let n = mask_and_insert_u16(h, priority.code() << PRIORITY_SHIFT, HEADER_PRIORITY_MASK);
        self.set_header(n);
    }

    /// Set or clear the remote-request flag; the other header bits are kept.
    pub fn set_rtr(&mut self, value: bool)
        requires
            old(self)@.len() >= HEADER_LEN,
        ensures
            final(self)@.len() == old(self)@.len(),
            header_of(final(self)@) == mask_and_insert_spec(
                header_of(old(self)@),
                if value { HEADER_RTR_MASK } else { 0u16 },
                HEADER_RTR_MASK,
            ),
            final(self)@.subrange(HEADER_LEN as int, final(self)@.len() as int)
                == old(self)@.subrange(HEADER_LEN as int, old(self)@.len() as int),
    {
        let h = self.header();
        let v: u16 = if value { HEADER_RTR_MASK } else { 0 };
        let n = mask_and_insert_u16(h, v, HEADER_RTR_MASK);
        self.set_header(n);
    }
}


/// The header word survives being split into two octets and read back.
proof fn lemma_header_octets(h: u16)
    ensures
        be16((h >> 8u16) as u8, (h & 0xffu16) as u8) == h,
{
    let hi = h >> 8u16;
    let lo = h & 0xffu16;
    assert(hi <= 255u16 && lo <= 255u16 && (hi << 8u16) | lo == h) by (bit_vector)
        requires
            hi == h >> 8u16,
            lo == h & 0xffu16,
    ;
}

/// Encoding a frame from its fields and payload and decoding it again gives
/// back the same priority, remote-request flag and payload, and the
/// address with its top bit cleared (the address itself when it is a
/// well-formed 7-bit one); the encoded buffer passes the length check.
pub proof fn lemma_frame_round_trip(addr: u8, prio: Priority, rtr: bool, payload: Seq<u8>)
    requires
        payload.len() <= MAX_PAYLOAD_LEN,
    ensures
        frame_len_ok(frame_bytes(addr, prio, rtr, payload)),
        header_addr(header_of(frame_bytes(addr, prio, rtr, payload))) == addr & 0x7f,
        addr < 128 ==> header_addr(header_of(frame_bytes(addr, prio, rtr, payload))) == addr,
        header_priority(header_of(frame_bytes(addr, prio, rtr, payload))) == prio,
        header_rtr(header_of(frame_bytes(addr, prio, rtr, payload))) == rtr,
        frame_bytes(addr, prio, rtr, payload).subrange(
            HEADER_LEN as int,
            frame_bytes(addr, prio, rtr, payload).len() as int,
        ) == payload,
{
    let b = frame_bytes(addr, prio, rtr, payload);
    let h = header_word(addr, prio, rtr);
    lemma_header_octets(h);
    assert(header_of(b) == h);
    lemma_header_fields(addr, prio, rtr);
    assert(addr < 128 ==> addr & 0x7fu8 == addr) by (bit_vector);
    assert(b.subrange(HEADER_LEN as int, b.len() as int) =~= payload);
}

/// The header fields of a frame, apart from its payload.
#[derive(Debug, Clone, Copy, PartialEq, Eq)]
pub struct Repr {
    /// Source bus address.
    pub src_addr: VlcbCanId,
    /// Frame priority.
    pub priority: Priority,
    /// Remote-request flag.
    pub rtr: bool,
}

impl Repr {
    /// Read the header fields of a frame.
    pub fn parse(frame: &Frame) -> (r: Repr)
        requires
            frame@.len() >= HEADER_LEN,
        ensures
            r.src_addr == VlcbCanId([header_addr(header_of(frame@))]),
            r.priority == header_priority(header_of(frame@)),
            r.rtr == header_rtr(header_of(frame@)),
    {
        Repr { src_addr: frame.src_addr(), priority: frame.priority(), rtr: frame.is_rtr() }
    }

    /// The header word of these fields.
    pub fn header_word(&self) -> (r: u16)
        ensures
            r == header_word(self.src_addr.value(), self.priority, self.rtr),
    {
        let rtr: u16 = if self.rtr { HEADER_RTR_MASK } else { 0 };
        rtr | ((self.priority.code() << PRIORITY_SHIFT) & HEADER_PRIORITY_MASK)
            | ((self.src_addr.0[0] as u16) & HEADER_ADDR_MASK)
    }

    /// Build a frame with these fields followed by `payload`.
    pub fn emit(&self, payload: &[u8]) -> (r: Frame)
        requires
            payload@.len() <= MAX_PAYLOAD_LEN,
        ensures
            r@ == frame_bytes(self.src_addr.value(), self.priority, self.rtr, payload@),
            frame_len_ok(r@),
    {
        let (hi, lo) = write_be16(self.header_word());
        let mut buffer: Vec<u8> = Vec::new();
        buffer.push(hi);
        buffer.push(lo);
        let mut i: usize = 0;
        while i < payload.len()
            invariant
                i <= payload@.len(),
                buffer@ == seq![hi, lo] + payload@.subrange(0, i as int),
            decreases payload@.len() - i,
        {
            buffer.push(payload[i]);
            i = i + 1;
            assert(buffer@ =~= seq![hi, lo] + payload@.subrange(0, i as int));
        }
        assert(payload@.subrange(0, i as int) =~= payload@);
        Frame { buffer }
    }
}

/// Largest 11-bit identifier of a standard CAN frame.
pub const STANDARD_ID_MAX: u16 = 0x7ff;

/// The frame buffer of a standard CAN frame: its identifier as the header
/// word, with the remote-request bit set for a remote frame, followed by the
/// data of a data frame.
pub open spec fn standard_frame_buffer(id: u16, remote: bool, data: Seq<u8>) -> Seq<u8> {
    let h = if remote { id | HEADER_RTR_MASK } else { id };
    seq![(h >> 8u16) as u8, (h & 0xffu16) as u8] + if remote { Seq::empty() } else { data }
}

/// Build the frame buffer of a standard CAN frame from its identifier,
/// its remote flag and its data.
pub fn buffer_from_standard_frame(id: u16, remote: bool, data: &[u8]) -> (r: Vec<u8>)
    requires
        id <= STANDARD_ID_MAX,
        data@.len() <= MAX_PAYLOAD_LEN,
    ensures
        r@ == standard_frame_buffer(id, remote, data@),
        frame_len_ok(r@),
        header_rtr(header_of(r@)) == remote,
{
    let h: u16 = if remote { id | HEADER_RTR_MASK } else { id };
    let (hi, lo) = write_be16(h);
    let mut buffer: Vec<u8> = Vec::new();
    buffer.push(hi);
    buffer.push(lo);
    if !remote {
        let mut i: usize = 0;
        while i < data.len()
            invariant
                i <= data@.len(),
                buffer@ == seq![hi, lo] + data@.subrange(0, i as int),
            decreases data@.len() - i,
        {
            buffer.push(data[i]);
            i = i + 1;
            assert(buffer@ =~= seq![hi, lo] + data@.subrange(0, i as int));
        }
        assert(data@.subrange(0, i as int) =~= data@);
    } else {
        assert(buffer@ =~= seq![hi, lo] + Seq::<u8>::empty());
    }
    proof {
        lemma_header_octets(h);
        assert(h & 0x8000u16 != 0 <==> remote) by (bit_vector)
            requires
                id <= 0x7ffu16,
                h == if remote { id | 0x8000u16 } else { id },
        ;
    }
    buffer
}

/// The identifier of the standard CAN frame that carries a frame buffer:
/// the header word without the remote-request bit.
pub fn standard_frame_id(frame: &Frame) -> (r: u16)
    requires
        frame@.len() >= HEADER_LEN,
    ensures
        r == header_of(frame@) & !HEADER_RTR_MASK,
{
    frame.header() & !HEADER_RTR_MASK
}

/// Replace the bits of `orig` selected by `mask` with those of `value`.
pub open spec fn mask_and_insert_spec(orig: u16, value: u16, mask: u16) -> u16 {
    (orig & !mask) | (value & mask)
}

} // verus!
