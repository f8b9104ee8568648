//! The module socket: every packet that no other sub-protocol claims.
//!
//! Both queues hold whole protocol packets: the header octet followed by
//! the payload.

use vstd::prelude::*;
use crate::storage::{total_octets, PacketBuffer};
use crate::wire::vlcb::Repr as VlcbRepr;
use crate::wire::vlcb::header_octet;

verus! {

/// Error of binding a socket.
#[derive(Debug, Clone, Copy, PartialEq, Eq)]
pub enum BindError {
    InvalidState,
    Unaddressable,
}

/// Error of queueing a packet to send.
#[derive(Debug, Clone, Copy, PartialEq, Eq)]
pub enum SendError {
    /// The transmit queue has no room for the packet.
    BufferFull,
}

/// Error of taking a received packet.
#[derive(Debug, Clone, Copy, PartialEq, Eq)]
pub enum RecvError {
    /// The receive queue is empty.
    Exhausted,
    /// The caller's buffer is smaller than the packet, which was dropped.
    Truncated,
}

impl BindError {
    /// A short description of the error.
    pub fn to_string(&self) -> (r: &'static str)
        ensures
            *self == BindError::InvalidState ==> r@ == "invalid state"@,
            *self == BindError::Unaddressable ==> r@ == "unaddressable"@,
    {
        match self {
            BindError::InvalidState => "invalid state",
            BindError::Unaddressable => "unaddressable",
        }
    }
}

impl RecvError {
    /// A short description of the error.
    pub fn to_string(&self) -> (r: &'static str)
        ensures
            *self == RecvError::Exhausted ==> r@ == "exhausted"@,
            *self == RecvError::Truncated ==> r@ == "truncated"@,
    {
        match self {
            RecvError::Exhausted => "exhausted",
            RecvError::Truncated => "truncated",
        }
    }
}

/// A socket that carries raw protocol packets for a module.
#[derive(Debug)]
pub struct Socket {
    rx_buffer: PacketBuffer,
    tx_buffer: PacketBuffer,
}

impl Socket {
    /// Packets received and not yet taken, oldest first.
    pub open spec fn rx_queue(&self) -> Seq<Seq<u8>> {
        self.rx()@
    }

    /// Packets queued to send, oldest first.
    pub open spec fn tx_queue(&self) -> Seq<Seq<u8>> {
        self.tx()@
    }

    /// The receive queue.
    pub closed spec fn rx(&self) -> PacketBuffer {
        self.rx_buffer
    }

    /// The transmit queue.
    pub closed spec fn tx(&self) -> PacketBuffer {
        self.tx_buffer
    }

    /// Both queues keep within their capacities.
    pub closed spec fn wf(&self) -> bool {
        self.rx_buffer.wf() && self.tx_buffer.wf()
    }

    /// Neither queue of a well-formed socket holds more packets, or more
    /// octets, than its capacity.
    pub proof fn lemma_bounds(&self)
        requires
            self.wf(),
        ensures
            self.rx_queue().len() <= self.rx().packet_cap(),
            total_octets(self.rx_queue()) <= self.rx().payload_cap(),
            self.tx_queue().len() <= self.tx().packet_cap(),
            total_octets(self.tx_queue()) <= self.tx().payload_cap(),
    {
        self.rx_buffer.lemma_bounds();
        self.tx_buffer.lemma_bounds();
    }

    /// A socket over the given queues.
    pub fn new(rx_buffer: PacketBuffer, tx_buffer: PacketBuffer) -> (r: Socket)
        requires
            rx_buffer.wf(),
            tx_buffer.wf(),
        ensures
            r.wf(),
            r.rx() == rx_buffer,
            r.tx() == tx_buffer,
            r.rx_queue() == rx_buffer@,
            r.tx_queue() == tx_buffer@,
    {
        Socket { rx_buffer, tx_buffer }
    }

    /// Whether the transmit queue has room for one more packet.
    pub fn can_send(&self) -> (r: bool)
        requires
            self.wf(),
        ensures
            r == (self.tx_queue().len() < self.tx().packet_cap()),
    {
        !self.tx_buffer.is_full()
    }

    /// Whether a received packet is waiting.
    pub fn can_recv(&self) -> (r: bool)
        requires
            self.wf(),
        ensures
            r == (self.rx_queue().len() > 0),
    {
        !self.rx_buffer.is_empty()
    }

    /// Most packets the receive queue holds.
    pub fn packet_recv_capacity(&self) -> (r: usize)
        ensures
            r == self.rx().packet_cap(),
    {
        self.rx_buffer.packet_capacity()
    }

    /// Most packets the transmit queue holds.
    pub fn packet_send_capacity(&self) -> (r: usize)
        ensures
            r == self.tx().packet_cap(),
    {
        self.tx_buffer.packet_capacity()
    }

    /// Most payload octets the receive queue holds.
    pub fn payload_recv_capacity(&self) -> (r: usize)
        ensures
            r == self.rx().payload_cap(),
    {
        self.rx_buffer.payload_capacity()
    }

    /// Most payload octets the transmit queue holds.
    pub fn payload_send_capacity(&self) -> (r: usize)
        ensures
            r == self.tx().payload_cap(),
    {
        self.tx_buffer.payload_capacity()
    }

    /// Queue a copy of `data` to send, or fail with `BufferFull` when the
    /// transmit queue has no room for it.
    pub fn send_slice(&mut self, data: &[u8]) -> (r: Result<(), SendError>)
        requires
            old(self).wf(),
        ensures
            final(self).wf(),
            final(self).rx() == old(self).rx(),
            final(self).tx().packet_cap() == old(self).tx().packet_cap(),
            final(self).tx().payload_cap() == old(self).tx().payload_cap(),
            r is Ok <==> old(self).tx().fits(data@.len()),
            r is Ok ==> final(self).tx_queue() == old(self).tx_queue().push(data@),
            r is Err ==> r == Err::<(), SendError>(SendError::BufferFull)
                && final(self).tx_queue() == old(self).tx_queue(),
    {
        match self.tx_buffer.enqueue(data) {
            Ok(()) => Ok(()),
            Err(_) => Err(SendError::BufferFull),
        }
    }

    /// Queue a packet of `size` octets to send and hand it back, zeroed, to
    /// be written in place; fail with `BufferFull` when the transmit queue
    /// has no room for it. The socket stays well formed as long as the
    /// packet keeps its length.
    pub fn send(&mut self, size: usize) -> (r: Result<&mut [u8], SendError>)
        requires
            old(self).wf(),
        ensures
            final(self).rx() == old(self).rx(),
            final(self).tx().packet_cap() == old(self).tx().packet_cap(),
            final(self).tx().payload_cap() == old(self).tx().payload_cap(),
            r is Ok <==> old(self).tx().fits(size as nat),
            r matches Err(e) ==> e == SendError::BufferFull && final(self).tx_queue() == old(self).tx_queue()
                && final(self).wf(),
            r matches Ok(b) ==> (*b)@ == Seq::new(size as nat, |i: int| 0u8) && final(self).tx_queue()
                == old(self).tx_queue().push((*final(b))@),
            r matches Ok(b) ==> ((*final(b))@.len() == size && final(self).tx_queue()
                == old(self).tx_queue().push((*final(b))@) ==> final(self).wf()),
    {
        match self.tx_buffer.enqueue_zeroed(size) {
            Ok(b) => Ok(b),
            Err(_) => Err(SendError::BufferFull),
        }
    }

    /// Queue a packet of at most `max_size` octets that `f` writes into a
    /// zeroed buffer of that size; `f` returns how many leading octets make
    /// the packet. Fails with `BufferFull`, without calling `f`, when the
    /// transmit queue has no room for `max_size` octets.
    pub fn send_with<F>(&mut self, max_size: usize, f: F) -> (r: Result<usize, SendError>)
        where
            F: FnOnce(&mut [u8]) -> usize,
        requires
            old(self).wf(),
            forall|b: &mut [u8]| #[trigger] f.requires((b,)),
        ensures
            final(self).wf(),
            final(self).rx() == old(self).rx(),
            final(self).tx().packet_cap() == old(self).tx().packet_cap(),
            final(self).tx().payload_cap() == old(self).tx().payload_cap(),
            r is Err <==> !old(self).tx().fits(max_size as nat),
            r is Err ==> final(self).tx_queue() == old(self).tx_queue(),
            r matches Ok(n) ==> n <= max_size && exists|b: &mut [u8], w: usize| {
                &&& #[trigger] f.ensures((b,), w)
                &&& (*b)@ == Seq::new(max_size as nat, |i: int| 0u8)
                &&& n == min_usize(min_usize(w, max_size), (*final(b))@.len() as usize)
                &&& final(self).tx_queue() == old(self).tx_queue().push((*final(b))@.subrange(0, n as int))
            },
    {
        if !self.tx_buffer.can_enqueue(max_size) {
            return Err(SendError::BufferFull);
        }
        let mut buf: Vec<u8> = vec![0u8; max_size];
        assert(buf@ =~= Seq::new(max_size as nat, |i: int| 0u8));
        let written = f(buf.as_mut_slice());
        let mut n = if written < max_size { written } else { max_size };
        if n > buf.len() {
            n = buf.len();
        }
        let packet = vstd::slice::slice_subrange(buf.as_slice(), 0, n);
        match self.send_slice(packet) {
            Ok(()) => Ok(n),
            Err(e) => Err(e),
        }
    }

    /// Take the oldest received packet, or fail with `Exhausted` when none
    /// is waiting.
    pub fn recv(&mut self) -> (r: Result<Vec<u8>, RecvError>)
        requires
            old(self).wf(),
        ensures
            final(self).wf(),
            final(self).tx() == old(self).tx(),
            final(self).rx().packet_cap() == old(self).rx().packet_cap(),
            final(self).rx().payload_cap() == old(self).rx().payload_cap(),
            r is Err <==> old(self).rx_queue().len() == 0,
            r is Err ==> r == Err::<Vec<u8>, RecvError>(RecvError::Exhausted)
                && final(self).rx_queue() == old(self).rx_queue(),
            r matches Ok(p) ==> p@ == old(self).rx_queue()[0] && final(self).rx_queue()
                == old(self).rx_queue().subrange(1, old(self).rx_queue().len() as int),
    {
        match self.rx_buffer.dequeue() {
            Ok(p) => Ok(p),
            Err(_) => Err(RecvError::Exhausted),
        }
    }

    /// Take the oldest received packet and copy it to the front of `data`,
    /// returning its length. Fails with `Exhausted` when no packet is
    /// waiting, and with `Truncated` when `data` is shorter than the packet,
    /// which is then dropped.
    pub fn recv_slice(&mut self, data: &mut [u8]) -> (r: Result<usize, RecvError>)
        requires
            old(self).wf(),
        ensures
            final(self).wf(),
            final(self).tx() == old(self).tx(),
            final(self).rx().packet_cap() == old(self).rx().packet_cap(),
            final(self).rx().payload_cap() == old(self).rx().payload_cap(),
            final(data)@.len() == old(data)@.len(),
            old(self).rx_queue().len() == 0 ==> r == Err::<usize, RecvError>(RecvError::Exhausted)
                && final(self).rx_queue() == old(self).rx_queue(),
            old(self).rx_queue().len() > 0 ==> final(self).rx_queue() == old(self).rx_queue().subrange(
                1,
                old(self).rx_queue().len() as int,
            ),
            old(self).rx_queue().len() > 0 && old(data)@.len() < old(self).rx_queue()[0].len() ==> r
                == Err::<usize, RecvError>(RecvError::Truncated),
            old(self).rx_queue().len() > 0 && old(data)@.len() >= old(self).rx_queue()[0].len() ==> r
                == Ok::<usize, RecvError>(old(self).rx_queue()[0].len() as usize)
                && final(data)@ == old(self).rx_queue()[0] + old(data)@.subrange(
                old(self).rx_queue()[0].len() as int,
                old(data)@.len() as int,
            ),
            r is Err ==> final(data)@ == old(data)@,
    {
        let packet = match self.recv() {
            Ok(p) => p,
            Err(e) => return Err(e),
        };
        copy_packet(packet.as_slice(), data)
    }

    /// The oldest received packet, left in the queue; fails with
    /// `Exhausted` when none is waiting.
    pub fn peek(&self) -> (r: Result<&[u8], RecvError>)
        requires
            self.wf(),
        ensures
            r is Err <==> self.rx_queue().len() == 0,
            r is Err ==> r == Err::<&[u8], RecvError>(RecvError::Exhausted),
            r matches Ok(p) ==> p@ == self.rx_queue()[0],
    {
        match self.rx_buffer.peek() {
            Ok(p) => Ok(p),
            Err(_) => Err(RecvError::Exhausted),
        }
    }

    /// Copy the oldest received packet to the front of `data` and return
    /// its length, leaving it in the queue. Fails with `Exhausted` when no
    /// packet is waiting, and with `Truncated`, copying nothing, when `data`
    /// is shorter than the packet.
    pub fn peek_slice(&self, data: &mut [u8]) -> (r: Result<usize, RecvError>)
        requires
            self.wf(),
        ensures
            final(data)@.len() == old(data)@.len(),
            self.rx_queue().len() == 0 ==> r == Err::<usize, RecvError>(RecvError::Exhausted),
            self.rx_queue().len() > 0 && old(data)@.len() < self.rx_queue()[0].len() ==> r
                == Err::<usize, RecvError>(RecvError::Truncated),
            self.rx_queue().len() > 0 && old(data)@.len() >= self.rx_queue()[0].len() ==> r
                == Ok::<usize, RecvError>(self.rx_queue()[0].len() as usize) && final(data)@
                == self.rx_queue()[0] + old(data)@.subrange(
                self.rx_queue()[0].len() as int,
                old(data)@.len() as int,
            ),
            r is Err ==> final(data)@ == old(data)@,
    {
        let packet = match self.peek() {
            Ok(p) => p,
            Err(e) => return Err(e),
        };
        copy_packet(packet, data)
    }

    /// Append a received packet, with the given header and payload, to the
    /// receive queue; it is dropped when the queue has no room for it.
    pub fn process(&mut self, vlcb_repr: &VlcbRepr, payload: &[u8])
        requires
            old(self).wf(),
            vlcb_repr.opcode < 32,
            vlcb_repr.data_len < 8,
            payload@.len() == vlcb_repr.data_len,
        ensures
            final(self).wf(),
            final(self).tx() == old(self).tx(),
            final(self).rx().packet_cap() == old(self).rx().packet_cap(),
            final(self).rx().payload_cap() == old(self).rx().payload_cap(),
            old(self).rx().fits(1 + payload@.len()) ==> final(self).rx_queue()
                == old(self).rx_queue().push(
                seq![header_octet(vlcb_repr.opcode, vlcb_repr.data_len)] + payload@,
            ),
            !old(self).rx().fits(1 + payload@.len()) ==> final(self).rx_queue()
                == old(self).rx_queue(),
    {
        let packet = vlcb_repr.emit(payload);
        let bytes = packet.into_inner();
        let _ = self.rx_buffer.enqueue(bytes.as_slice());
    }

    /// The oldest packet queued to send, left in the queue.
    pub fn dispatch_peek(&self) -> (r: Option<&[u8]>)
        requires
            self.wf(),
        ensures
            r is None <==> self.tx_queue().len() == 0,
            r matches Some(p) ==> p@ == self.tx_queue()[0],
    {
        match self.tx_buffer.peek() {
            Ok(p) => Some(p),
            Err(_) => None,
        }
    }

    /// Drop the oldest packet queued to send, once it has been handed on;
    /// an empty queue is left as it is.
    pub fn dispatch_done(&mut self)
        requires
            old(self).wf(),
        ensures
            final(self).wf(),
            final(self).rx() == old(self).rx(),
            final(self).tx().packet_cap() == old(self).tx().packet_cap(),
            final(self).tx().payload_cap() == old(self).tx().payload_cap(),
            old(self).tx_queue().len() == 0 ==> final(self).tx_queue() == old(self).tx_queue(),
            old(self).tx_queue().len() > 0 ==> final(self).tx_queue() == old(self).tx_queue().subrange(
                1,
                old(self).tx_queue().len() as int,
            ),
    {
        let _ = self.tx_buffer.dequeue();
    }

    /// When the socket next needs a poll: now while packets wait to be
    /// sent, otherwise only when something arrives.
    pub fn poll_at(&self) -> (r: super::PollAt)
        requires
            self.wf(),
        ensures
            r == (if self.tx_queue().len() == 0 {
                super::PollAt::Ingress
            } else {
                super::PollAt::Now
            }),
    {
        if self.tx_buffer.is_empty() {
            super::PollAt::Ingress
        } else {
            super::PollAt::Now
        }
    }
}

/// The smaller of two lengths.
pub open spec fn min_usize(a: usize, b: usize) -> usize {
    if a < b {
        a
    } else {
        b
    }
}

/// Copy `packet` to the front of `data` when it fits.
fn copy_packet(packet: &[u8], data: &mut [u8]) -> (r: Result<usize, RecvError>)
    ensures
        final(data)@.len() == old(data)@.len(),
        old(data)@.len() < packet@.len() ==> r == Err::<usize, RecvError>(RecvError::Truncated)
            && final(data)@ == old(data)@,
        old(data)@.len() >= packet@.len() ==> r == Ok::<usize, RecvError>(packet@.len() as usize)
            && final(data)@ == packet@ + old(data)@.subrange(
            packet@.len() as int,
            old(data)@.len() as int,
        ),
{
    if data.len() < packet.len() {
        return Err(RecvError::Truncated);
    }
    let length = packet.len();
    let mut i: usize = 0;
    while i < length
        invariant
            length == packet@.len(),
            length <= data@.len(),
            data@.len() == old(data)@.len(),
            i <= length,
            forall|k: int| 0 <= k < i ==> data@[k] == packet@[k],
            forall|k: int| length <= k < data@.len() ==> data@[k] == old(data)@[k],
        decreases length - i,
    {
        data[i] = packet[i];
        i = i + 1;
    }
    assert(data@ =~= packet@ + old(data)@.subrange(length as int, old(data)@.len() as int));
    Ok(length)
}

} // verus!
