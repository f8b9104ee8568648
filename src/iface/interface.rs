//! The polling engine.
//!
//! One poll repeats an ingress pass and an egress pass until neither makes
//! progress. Ingress drains every frame that the device holds into the
//! sockets; egress gives every socket, in collection order, one turn to
//! send its oldest packet, and stops the pass at the first frame that the
//! device refuses. No socket kind here answers a frame as it arrives, so an
//! ingress pass sends nothing; answers leave through the transmit queues.

use vstd::prelude::*;
use crate::cbus::VlcbNodeNumber;
use crate::phy::{Device, DeviceCapabilities};
use crate::socket::Socket;
use crate::storage::total_octets;
use crate::wire::HardwareAddress;
use crate::wire::can::{frame_bytes, frame_len_ok, Frame, Priority, Repr as CanRepr, HEADER_LEN, MAX_PAYLOAD_LEN};
use crate::wire::vlcb::{
    header_octet, is_base_opcode, opcode_of, packet_len_ok, packet_payload, payload_len_of, protocol_of,
    Packet, Protocol, Repr as VlcbRepr,
};
use super::socket_set::{
    lemma_tx_pending_ext, lemma_tx_pending_update, lemma_tx_pending_zero, slot_tx, slot_wf, tx_pending, SocketSet,
};

verus! {

/// A point in time, in milliseconds of a monotonic clock.
#[derive(Debug, Clone, Copy, PartialEq, Eq, PartialOrd, Ord, Default)]
pub struct Instant {
    /// Milliseconds since the clock's origin.
    pub millis: u64,
}

/// The packet that a received frame hands to module sockets, if any: the
/// frame and the packet in it must be well formed, and the operation code
/// known and outside every other sub-protocol.
pub open spec fn ingress_packet(frame: Seq<u8>) -> Option<Seq<u8>> {
    if frame_len_ok(frame) {
        let p = frame.subrange(HEADER_LEN as int, frame.len() as int);
        if packet_len_ok(p) && is_base_opcode(opcode_of(p[0])) && protocol_of(opcode_of(p[0]))
            == Protocol::Module {
            Some(seq![header_octet(opcode_of(p[0]), payload_len_of(p[0]))] + packet_payload(p))
        } else {
            None
        }
    } else {
        None
    }
}

/// The frame that carries a queued packet from a node with bus address
/// `addr`, if the packet is well formed: the header declares no more octets
/// than it holds, the whole fits in a frame and the operation code is known.
pub open spec fn egress_frame(addr: u8, packet: Seq<u8>) -> Option<Seq<u8>> {
    if packet_len_ok(packet) && packet.len() <= MAX_PAYLOAD_LEN && is_base_opcode(opcode_of(packet[0])) {
        Some(
            frame_bytes(
                addr,
                Priority::Low,
                false,
                seq![header_octet(opcode_of(packet[0]), payload_len_of(packet[0]))]
                    + packet_payload(packet),
            ),
        )
    } else {
        None
    }
}

/// A slot after a packet was offered to it: an empty slot stays empty, a
/// socket keeps its transmit queue and gains the packet when it has room.
pub open spec fn slot_delivered(before: Option<Socket>, after: Option<Socket>, packet: Option<Seq<u8>>) -> bool {
    match (before, after) {
        (None, None) => true,
        (Some(Socket::Module(a)), Some(Socket::Module(b))) => {
            &&& b.wf()
            &&& b.tx() == a.tx()
            &&& b.rx().packet_cap() == a.rx().packet_cap()
            &&& b.rx().payload_cap() == a.rx().payload_cap()
            &&& b.rx_queue() == match packet {
                Some(p) => if a.rx().fits(p.len()) {
                    a.rx_queue().push(p)
                } else {
                    a.rx_queue()
                },
                None => a.rx_queue(),
            }
        },
        _ => false,
    }
}

/// A slot after its turn in an egress pass: a slot with nothing to send is
/// untouched, a socket with something to send loses its oldest packet.
pub open spec fn slot_sent(before: Option<Socket>, after: Option<Socket>) -> bool {
    if slot_tx(before).len() == 0 {
        after == before
    } else {
        match (before, after) {
            (Some(Socket::Module(a)), Some(Socket::Module(b))) => {
                &&& b.wf()
                &&& b.rx() == a.rx()
                &&& b.tx().packet_cap() == a.tx().packet_cap()
                &&& b.tx().payload_cap() == a.tx().payload_cap()
                &&& b.tx_queue() == a.tx_queue().subrange(1, a.tx_queue().len() as int)
            },
            _ => false,
        }
    }
}

/// The frame that carries the packet at the head of a slot's transmit
/// queue, when there is one and it is well formed.
pub open spec fn head_frame(addr: u8, s: Option<Socket>) -> Option<Seq<u8>> {
    if slot_tx(s).len() > 0 {
        egress_frame(addr, slot_tx(s)[0])
    } else {
        None
    }
}

/// The frames that the device took during an egress pass over the first
/// `j` slots, in order: one for each slot whose head packet is well formed.
pub open spec fn egress_log(before: Seq<Option<Socket>>, addr: u8, j: int) -> Seq<(Seq<u8>, bool)>
    decreases j,
{
    if j <= 0 {
        Seq::empty()
    } else {
        let prev = egress_log(before, addr, j - 1);
        match head_frame(addr, before[j - 1]) {
            Some(f) => prev.push((f, true)),
            None => prev,
        }
    }
}

/// The outcome of an egress pass from bus address `addr` that stopped
/// before slot `j` (or ran through every slot, when `j` is their number):
/// every slot before `j` had its turn, each well-formed head packet was
/// taken by the device and each malformed one dropped; the slots from `j`
/// on are untouched. A pass that stopped early stopped at a well-formed
/// head packet whose frame the device refused. The device's history grew
/// by exactly those offers. `progress` tells whether a packet left a queue.
pub open spec fn egress_pass(
    before: Seq<Option<Socket>>,
    after: Seq<Option<Socket>>,
    progress: bool,
    j: int,
    addr: u8,
    history_before: Seq<(Seq<u8>, bool)>,
    history_after: Seq<(Seq<u8>, bool)>,
) -> bool {
    &&& 0 <= j <= before.len()
    &&& after.len() == before.len()
    &&& forall|k: int| 0 <= k < j ==> slot_sent(#[trigger] before[k], after[k])
    &&& forall|k: int| j <= k < before.len() ==> #[trigger] after[k] == before[k]
    &&& j < before.len() ==> head_frame(addr, before[j]) is Some && history_after == history_before
        + egress_log(before, addr, j).push((head_frame(addr, before[j]).unwrap(), false))
    &&& j == before.len() ==> history_after == history_before + egress_log(before, addr, j)
    &&& progress <==> exists|k: int| 0 <= k < j && slot_tx(#[trigger] before[k]).len() > 0
}

/// An egress pass that went through every slot without progress leaves
/// nothing waiting to be sent: after a poll whose last pass did so, a poll
/// with no new frame and no new packet reports no progress.
pub proof fn lemma_drained_after_idle_pass(
    slots: Seq<Option<Socket>>,
    j: int,
    addr: u8,
    history_before: Seq<(Seq<u8>, bool)>,
    history_after: Seq<(Seq<u8>, bool)>,
)
    requires
        egress_pass(slots, slots, false, j, addr, history_before, history_after),
        j == slots.len(),
    ensures
        tx_pending(slots) == 0,
{
    assert forall|i: int| 0 <= i < slots.len() implies slot_tx(#[trigger] slots[i]).len() == 0 by {
        if slot_tx(slots[i]).len() > 0 {
            assert(exists|k: int| 0 <= k < j && slot_tx(#[trigger] slots[k]).len() > 0);
        }
    }
    lemma_tx_pending_zero(slots);
}

/// A slot whose receive queue took the packets of `frames` in order, as far
/// as it had room, and whose receive capacities were kept.
pub open spec fn slot_rx_after(before: Option<Socket>, after: Option<Socket>, frames: Seq<Seq<u8>>) -> bool {
    match (before, after) {
        (None, None) => true,
        (Some(Socket::Module(a)), Some(Socket::Module(b))) => {
            &&& b.rx().packet_cap() == a.rx().packet_cap()
            &&& b.rx().payload_cap() == a.rx().payload_cap()
            &&& b.rx_queue() == queue_after_frames(
                a.rx_queue(),
                a.rx().packet_cap(),
                a.rx().payload_cap(),
                frames,
            )
        },
        _ => false,
    }
}

/// A receive queue after the packet of one frame was offered to it: the
/// packet is appended when the queue has room for it, in packets and in
/// octets.
pub open spec fn queue_accept(q: Seq<Seq<u8>>, packet_cap: nat, payload_cap: nat, p: Option<Seq<u8>>) -> Seq<Seq<u8>> {
    match p {
        Some(x) => if q.len() < packet_cap && total_octets(q) + x.len() <= payload_cap {
            q.push(x)
        } else {
            q
        },
        None => q,
    }
}

/// A receive queue after the packets of `frames` were offered to it, in
/// order.
pub open spec fn queue_after_frames(
    q: Seq<Seq<u8>>,
    packet_cap: nat,
    payload_cap: nat,
    frames: Seq<Seq<u8>>,
) -> Seq<Seq<u8>>
    decreases frames.len(),
{
    if frames.len() == 0 {
        q
    } else {
        queue_accept(
            queue_after_frames(q, packet_cap, payload_cap, frames.drop_last()),
            packet_cap,
            payload_cap,
            ingress_packet(frames.last()),
        )
    }
}

/// A slot after the frames `frames` were received: an empty slot stays
/// empty; a socket keeps its transmit queue and receive capacities, and its
/// receive queue takes the packets of the frames in order, as far as it
/// has room.
pub open spec fn slot_ingressed(before: Option<Socket>, after: Option<Socket>, frames: Seq<Seq<u8>>) -> bool {
    match (before, after) {
        (None, None) => true,
        (Some(Socket::Module(a)), Some(Socket::Module(b))) => {
            &&& b.wf()
            &&& b.tx() == a.tx()
            &&& b.rx().packet_cap() == a.rx().packet_cap()
            &&& b.rx().payload_cap() == a.rx().payload_cap()
            &&& b.rx_queue() == queue_after_frames(
                a.rx_queue(),
                a.rx().packet_cap(),
                a.rx().payload_cap(),
                frames,
            )
        },
        _ => false,
    }
}

proof fn lemma_slot_ingressed_step(
    o: Option<Socket>,
    c: Option<Socket>,
    n: Option<Socket>,
    got: Seq<Seq<u8>>,
    f: Seq<u8>,
)
    requires
        slot_ingressed(o, c, got),
        slot_delivered(c, n, ingress_packet(f)),
    ensures
        slot_ingressed(o, n, got.push(f)),
{
    assert(got.push(f).drop_last() =~= got);
    assert(got.push(f).last() == f);
}

/// A slot whose transmit queue is left as it was: an empty slot stays
/// empty, a socket keeps its transmit queue and the capacities of its
/// receive queue.
pub open spec fn slot_tx_kept(before: Option<Socket>, after: Option<Socket>) -> bool {
    match (before, after) {
        (None, None) => true,
        (Some(Socket::Module(a)), Some(Socket::Module(b))) => {
            &&& b.wf()
            &&& b.tx() == a.tx()
            &&& b.rx().packet_cap() == a.rx().packet_cap()
            &&& b.rx().payload_cap() == a.rx().payload_cap()
        },
        _ => false,
    }
}

/// A network interface: the device's capabilities, the node's addresses
/// and the time of the last poll.
#[derive(Debug)]
pub struct Interface {
    caps: DeviceCapabilities,
    addr: VlcbNodeNumber,
    hw_addr: HardwareAddress,
    now: Instant,
}

impl Interface {
    /// Capabilities of the device the interface was built for.
    pub closed spec fn caps_spec(&self) -> DeviceCapabilities {
        self.caps
    }

    /// The node number.
    pub closed spec fn addr_spec(&self) -> VlcbNodeNumber {
        self.addr
    }

    /// The hardware address.
    pub closed spec fn hw_addr_spec(&self) -> HardwareAddress {
        self.hw_addr
    }

    /// The time of the last poll.
    pub closed spec fn now_spec(&self) -> Instant {
        self.now
    }

    /// The bus address frames are sent from.
    pub open spec fn src_addr(&self) -> u8 {
        match self.hw_addr_spec() {
            HardwareAddress::CAN(id) => id.value(),
        }
    }

    /// Build an interface for `device`, recording its capabilities.
    pub fn new<D: Device>(device: &D, addr: VlcbNodeNumber, hw_addr: HardwareAddress) -> (r: Interface)
        ensures
            r.caps_spec() == device.caps(),
            r.addr_spec() == addr,
            r.hw_addr_spec() == hw_addr,
            r.now_spec() == (Instant { millis: 0 }),
    {
        let caps = device.capabilities();
        Interface { caps, addr, hw_addr, now: Instant { millis: 0 } }
    }

    /// Set the node number.
    pub fn set_addr(&mut self, addr: VlcbNodeNumber)
        ensures
            final(self).addr_spec() == addr,
            final(self).hw_addr_spec() == old(self).hw_addr_spec(),
            final(self).caps_spec() == old(self).caps_spec(),
            final(self).now_spec() == old(self).now_spec(),
    {
        self.addr = addr;
    }

    /// Set the hardware address.
    pub fn set_hw_addr(&mut self, addr: HardwareAddress)
        ensures
            final(self).hw_addr_spec() == addr,
            final(self).addr_spec() == old(self).addr_spec(),
            final(self).caps_spec() == old(self).caps_spec(),
            final(self).now_spec() == old(self).now_spec(),
    {
        self.hw_addr = addr;
    }

    /// The node number.
    pub fn addr(&self) -> (r: VlcbNodeNumber)
        ensures
            r == self.addr_spec(),
    {
        self.addr
    }

    /// The hardware address.
    pub fn hw_addr(&self) -> (r: HardwareAddress)
        ensures
            r == self.hw_addr_spec(),
    {
        self.hw_addr
    }

    /// Capabilities of the device the interface was built for.
    pub fn device_caps(&self) -> (r: &DeviceCapabilities)
        ensures
            *r == self.caps_spec(),
    {
        &self.caps
    }

    /// The time of the last poll.
    pub fn now(&self) -> (r: Instant)
        ensures
            r == self.now_spec(),
    {
        self.now
    }

    /// The frame that carries a queued packet, or `None` when the packet is
    /// malformed and must be dropped.
    pub fn dispatch_frame(&self, packet: &[u8]) -> (r: Option<Frame>)
        ensures
            r is None <==> egress_frame(self.src_addr(), packet@) is None,
            r matches Some(f) ==> egress_frame(self.src_addr(), packet@) == Some(f@),
    {
        let copy = vstd::slice::slice_to_vec(packet);
        let wire = match Packet::new_checked(copy) {
            Ok(p) => p,
            Err(_) => return None,
        };
        if packet.len() > MAX_PAYLOAD_LEN {
            return None;
        }
        let repr = match VlcbRepr::parse(&wire) {
            Ok(r) => r,
            Err(_) => return None,
        };
        let body = repr.emit(wire.payload());
        let frame_repr = CanRepr { src_addr: self.hw_addr.can_id(), priority: Priority::Low, rtr: false };
        let inner = body.into_inner();
        Some(frame_repr.emit(inner.as_slice()))
    }

    /// Hand the packet in a received frame to every module socket that has
    /// room for it; a malformed frame or packet, or one of another
    /// sub-protocol, is dropped.
    pub fn process_can(&self, sockets: &mut SocketSet, frame: Vec<u8>)
        requires
            old(sockets).wf(),
        ensures
            final(sockets).wf(),
            final(sockets).grows() == old(sockets).grows(),
            final(sockets).slots().len() == old(sockets).slots().len(),
            forall|i: int| 0 <= i < old(sockets).slots().len() ==> slot_delivered(
                #[trigger] old(sockets).slots()[i],
                final(sockets).slots()[i],
                ingress_packet(frame@),
            ),
    {
        let ghost fb = frame@;
        let ghost before = sockets.slots();
        let can_frame = match Frame::new_checked(frame) {
            Ok(f) => f,
            Err(_) => {
                self.deliver(sockets, None, Ghost(None));
                return;
            },
        };
        let payload = vstd::slice::slice_to_vec(can_frame.payload());
        let ghost p = payload@;
        let packet = match Packet::new_checked(payload) {
            Ok(p) => p,
            Err(_) => {
                self.deliver(sockets, None, Ghost(None));
                return;
            },
        };
        let repr = match VlcbRepr::parse(&packet) {
            Ok(r) => r,
            Err(_) => {
                self.deliver(sockets, None, Ghost(None));
                return;
            },
        };
        match repr.next_header() {
            Protocol::Module => {
                let body = packet.payload();
                self.deliver(sockets, Some((&repr, body)), Ghost(ingress_packet(fb)));
            },
            Protocol::LongMsg => {
                self.deliver(sockets, None, Ghost(None));
            },
        }
    }

    /// Receive every frame that the device holds and hand each frame's
    /// packet to the sockets; `true` when at least one frame was received.
    pub fn ingress_packets<D: Device>(&self, device: &mut D, sockets: &mut SocketSet) -> (r: bool)
        requires
            old(sockets).wf(),
        ensures
            final(sockets).wf(),
            final(sockets).grows() == old(sockets).grows(),
            final(sockets).slots().len() == old(sockets).slots().len(),
            forall|i: int| 0 <= i < old(sockets).slots().len() ==> slot_ingressed(
                #[trigger] old(sockets).slots()[i],
                final(sockets).slots()[i],
                old(device).rx_pending(),
            ),
            tx_pending(final(sockets).slots()) == tx_pending(old(sockets).slots()),
            final(device).rx_pending().len() == 0,
            final(device).tx_history() == old(device).tx_history(),
            final(device).caps() == old(device).caps(),
            r <==> old(device).rx_pending().len() > 0,
            !r ==> final(sockets).slots() == old(sockets).slots(),
    {
        let mut processed_any = false;
        let mut done = false;
        let ghost all = device.rx_pending();
        let ghost mut count: int = 0;
        proof {
            assert forall|i: int| 0 <= i < old(sockets).slots().len() implies slot_ingressed(
                #[trigger] old(sockets).slots()[i],
                sockets.slots()[i],
                all.subrange(0, 0),
            ) by {
                assert(slot_wf(old(sockets).slots()[i]));
            }
        }
        while !done
            invariant
                all == old(device).rx_pending(),
                0 <= count <= all.len(),
                device.rx_pending() == all.subrange(count, all.len() as int),
                sockets.wf(),
                sockets.grows() == old(sockets).grows(),
                sockets.slots().len() == old(sockets).slots().len(),
                forall|i: int| 0 <= i < old(sockets).slots().len() ==> slot_ingressed(
                    #[trigger] old(sockets).slots()[i],
                    sockets.slots()[i],
                    all.subrange(0, count),
                ),
                device.caps() == old(device).caps(),
                device.tx_history() == old(device).tx_history(),
                processed_any <==> count > 0,
                !processed_any ==> sockets.slots() == old(sockets).slots(),
                done ==> count == all.len(),
            decreases device.rx_pending().len() + if done { 0int } else { 1int },
        {
            match device.receive() {
                Some(frame) => {
                    let ghost before = sockets.slots();
                    let ghost f = frame@;
                    self.process_can(sockets, frame);
                    proof {
                        assert(f == all[count]);
                        assert forall|i: int| 0 <= i < old(sockets).slots().len() implies slot_ingressed(
                            #[trigger] old(sockets).slots()[i],
                            sockets.slots()[i],
                            all.subrange(0, count + 1),
                        ) by {
                            lemma_slot_ingressed_step(
                                old(sockets).slots()[i],
                                before[i],
                                sockets.slots()[i],
                                all.subrange(0, count),
                                f,
                            );
                            assert(all.subrange(0, count).push(f) =~= all.subrange(0, count + 1));
                        }
                        count = count + 1;
                        assert(device.rx_pending() =~= all.subrange(count, all.len() as int));
                    }
                    processed_any = true;
                },
                None => {
                    done = true;
                },
            }
        }
        proof {
            assert(all.subrange(0, count) =~= all);
            assert forall|i: int| 0 <= i < old(sockets).slots().len() implies slot_tx(
                #[trigger] old(sockets).slots()[i],
            ) == slot_tx(sockets.slots()[i]) by {
                assert(slot_ingressed(old(sockets).slots()[i], sockets.slots()[i], all));
            }
            lemma_tx_pending_ext(old(sockets).slots(), sockets.slots());
        }
        processed_any
    }

    /// Give every socket, in collection order, one turn to send its oldest
    /// packet: a well-formed packet is offered to the device and leaves the
    /// queue when the device takes it; a malformed packet is dropped. The
    /// pass stops at the first frame that the device refuses, and leaves
    /// that socket and every later one as they were. `true` when at least
    /// one packet left a queue.
    pub fn egress_packets<D: Device>(&self, device: &mut D, sockets: &mut SocketSet) -> (r: bool)
        requires
            old(sockets).wf(),
        ensures
            final(sockets).wf(),
            final(sockets).grows() == old(sockets).grows(),
            final(sockets).slots().len() == old(sockets).slots().len(),
            final(device).rx_pending() == old(device).rx_pending(),
            final(device).caps() == old(device).caps(),
            exists|j: int| #[trigger] egress_pass(
                old(sockets).slots(),
                final(sockets).slots(),
                r,
                j,
                self.src_addr(),
                old(device).tx_history(),
                final(device).tx_history(),
            ),
            r ==> tx_pending(final(sockets).slots()) < tx_pending(old(sockets).slots()),
            !r ==> final(sockets).slots() == old(sockets).slots(),
    {
        let n = sockets.len();
        let mut i: usize = 0;
        let mut emitted_any = false;
        let mut stopped = false;
        let ghost addr = self.src_addr();
        while i < n && !stopped
            invariant
                n == old(sockets).slots().len(),
                addr == self.src_addr(),
                sockets.slots().len() == n,
                sockets.wf(),
                sockets.grows() == old(sockets).grows(),
                i <= n,
                device.caps() == old(device).caps(),
                device.rx_pending() == old(device).rx_pending(),
                forall|k: int| 0 <= k < i ==> slot_sent(
                    #[trigger] old(sockets).slots()[k],
                    sockets.slots()[k],
                ),
                forall|k: int| i <= k < n ==> #[trigger] sockets.slots()[k] == old(sockets).slots()[k],
                !stopped ==> device.tx_history() == old(device).tx_history() + egress_log(
                    old(sockets).slots(),
                    addr,
                    i as int,
                ),
                stopped ==> i < n && head_frame(addr, old(sockets).slots()[i as int]) is Some
                    && device.tx_history() == old(device).tx_history() + egress_log(
                    old(sockets).slots(),
                    addr,
                    i as int,
                ).push((head_frame(addr, old(sockets).slots()[i as int]).unwrap(), false)),
                emitted_any <==> exists|k: int| 0 <= k < i && slot_tx(#[trigger] old(sockets).slots()[k]).len() > 0,
                emitted_any ==> tx_pending(sockets.slots()) < tx_pending(old(sockets).slots()),
                !emitted_any ==> sockets.slots() == old(sockets).slots(),
            decreases n - i + if stopped { 0int } else { 1int },
        {
            let ghost cur = sockets.slots();
            let ghost hist = device.tx_history();
            assert(slot_wf(cur[i as int]));
            let slot = sockets.slot_mut(i);
            let mut sent = false;
            match slot {
                Some(Socket::Module(s)) => {
                    let frame = match s.dispatch_peek() {
                        None => None,
                        Some(p) => Some(self.dispatch_frame(p)),
                    };
                    match frame {
                        None => {},
                        Some(None) => {
                            s.dispatch_done();
                            sent = true;
                        },
                        Some(Some(f)) => {
                            let bytes = f.into_inner();
                            if device.transmit(bytes.as_slice()) {
                                s.dispatch_done();
                                sent = true;
                            } else {
                                stopped = true;
                            }
                        },
                    }
                },
                None => {},
            }
            proof {
                let now = sockets.slots();
                assert(sent ==> slot_tx(cur[i as int]).len() > 0);
                assert(!sent ==> now[i as int] == cur[i as int]);
                if !sent {
                    assert(now =~= cur);
                }
                if sent {
                    lemma_tx_pending_update(cur, i as int, now[i as int]);
                    assert(now =~= cur.update(i as int, now[i as int]));
                }
                assert forall|k: int| 0 <= k < now.len() implies slot_wf(#[trigger] now[k]) by {
                    if k != i {
                        assert(now[k] == cur[k]);
                    }
                }
                assert(cur[i as int] == old(sockets).slots()[i as int]);
                if !stopped {
                    assert(device.tx_history() =~= old(device).tx_history() + egress_log(
                        old(sockets).slots(),
                        addr,
                        i + 1,
                    ));
                }
            }
            if sent {
                emitted_any = true;
            }
            if !stopped {
                assert(slot_sent(old(sockets).slots()[i as int], sockets.slots()[i as int]));
                i = i + 1;
            }
        }
        proof {
            let j = i as int;
            assert(j < n ==> stopped);
            assert(egress_pass(
                old(sockets).slots(),
                sockets.slots(),
                emitted_any,
                j,
                addr,
                old(device).tx_history(),
                device.tx_history(),
            ));
        }
        emitted_any
    }

    /// Repeat an ingress pass and an egress pass until neither makes
    /// progress; `true` when either made progress at least once. On return
    /// every frame that the device held has been received and handed to the
    /// sockets, and the last egress pass made no progress: every transmit
    /// queue is empty, or the device refused the frame of the first
    /// well-formed packet still queued.
    pub fn poll<D: Device>(&mut self, timestamp: Instant, device: &mut D, sockets: &mut SocketSet) -> (r: bool)
        requires
            old(device).caps() == old(self).caps_spec(),
            old(sockets).wf(),
        ensures
            final(self).now_spec() == timestamp,
            final(self).caps_spec() == old(self).caps_spec(),
            final(self).addr_spec() == old(self).addr_spec(),
            final(self).hw_addr_spec() == old(self).hw_addr_spec(),
            final(sockets).wf(),
            final(sockets).grows() == old(sockets).grows(),
            final(sockets).slots().len() == old(sockets).slots().len(),
            final(device).rx_pending().len() == 0,
            final(device).caps() == old(device).caps(),
            forall|i: int| 0 <= i < old(sockets).slots().len() ==> slot_rx_after(
                #[trigger] old(sockets).slots()[i],
                final(sockets).slots()[i],
                old(device).rx_pending(),
            ),
            exists|j: int, h: Seq<(Seq<u8>, bool)>| #[trigger] egress_pass(
                final(sockets).slots(),
                final(sockets).slots(),
                false,
                j,
                old(self).src_addr(),
                h,
                final(device).tx_history(),
            ),
            tx_pending(final(sockets).slots()) <= tx_pending(old(sockets).slots()),
            r ==> old(device).rx_pending().len() > 0 || tx_pending(final(sockets).slots()) < tx_pending(
                old(sockets).slots(),
            ),
            !r ==> final(sockets).slots() == old(sockets).slots(),
            old(device).rx_pending().len() > 0 ==> r,
            old(device).rx_pending().len() == 0 && tx_pending(old(sockets).slots()) == 0 ==> !r,
    {
        self.now = timestamp;
        let mut changed = false;
        let mut progressing = true;
        let ghost frames = device.rx_pending();
        proof {
            assert forall|i: int| 0 <= i < old(sockets).slots().len() implies slot_rx_after(
                #[trigger] old(sockets).slots()[i],
                sockets.slots()[i],
                Seq::<Seq<u8>>::empty(),
            ) by {
                assert(slot_wf(old(sockets).slots()[i]));
            }
        }
        while progressing
            invariant
                frames == old(device).rx_pending(),
                self.src_addr() == old(self).src_addr(),
                self.caps_spec() == old(self).caps_spec(),
                self.addr_spec() == old(self).addr_spec(),
                self.hw_addr_spec() == old(self).hw_addr_spec(),
                self.now_spec() == timestamp,
                sockets.wf(),
                sockets.grows() == old(sockets).grows(),
                sockets.slots().len() == old(sockets).slots().len(),
                device.caps() == old(device).caps(),
                device.rx_pending().len() > 0 ==> device.rx_pending() == frames && sockets.slots()
                    == old(sockets).slots(),
                device.rx_pending().len() > 0 ==> forall|i: int| 0 <= i < old(sockets).slots().len() ==> slot_rx_after(
                    #[trigger] old(sockets).slots()[i],
                    sockets.slots()[i],
                    Seq::<Seq<u8>>::empty(),
                ),
                device.rx_pending().len() == 0 ==> forall|i: int| 0 <= i < old(sockets).slots().len() ==> slot_rx_after(
                    #[trigger] old(sockets).slots()[i],
                    sockets.slots()[i],
                    frames,
                ),
                tx_pending(sockets.slots()) <= tx_pending(old(sockets).slots()),
                !changed ==> sockets.slots() == old(sockets).slots(),
                !changed ==> device.rx_pending() == frames,
                changed ==> frames.len() > 0 || tx_pending(sockets.slots()) < tx_pending(old(sockets).slots()),
                !progressing ==> device.rx_pending().len() == 0,
                !progressing ==> exists|j: int, h: Seq<(Seq<u8>, bool)>| #[trigger] egress_pass(
                    sockets.slots(),
                    sockets.slots(),
                    false,
                    j,
                    old(self).src_addr(),
                    h,
                    device.tx_history(),
                ),
            decreases device.rx_pending().len() + tx_pending(sockets.slots()) + if progressing { 1int } else { 0int },
        {
            let ghost s0 = sockets.slots();
            let ghost p0 = device.rx_pending();
            let did_ingress = self.ingress_packets(device, sockets);
            let ghost s1 = sockets.slots();
            let ghost h1 = device.tx_history();
            proof {
                assert forall|i: int| 0 <= i < old(sockets).slots().len() implies slot_rx_after(
                    #[trigger] old(sockets).slots()[i],
                    s1[i],
                    frames,
                ) by {
                    assert(slot_ingressed(s0[i], s1[i], p0));
                    if p0.len() > 0 {
                        assert(s0[i] == old(sockets).slots()[i]);
                        assert(p0 == frames);
                    } else {
                        assert(p0 =~= Seq::<Seq<u8>>::empty());
                        assert(slot_rx_after(old(sockets).slots()[i], s0[i], frames));
                    }
                }
            }
            let did_egress = self.egress_packets(device, sockets);
            proof {
                let s2 = sockets.slots();
                assert forall|i: int| 0 <= i < old(sockets).slots().len() implies slot_rx_after(
                    #[trigger] old(sockets).slots()[i],
                    s2[i],
                    frames,
                ) by {
                    let j = choose|j: int| #[trigger] egress_pass(
                        s1,
                        s2,
                        did_egress,
                        j,
                        old(self).src_addr(),
                        h1,
                        device.tx_history(),
                    );
                    if i < j {
                        assert(slot_sent(s1[i], s2[i]));
                    } else {
                        assert(s2[i] == s1[i]);
                    }
                }
                if !did_ingress && !did_egress {
                    let j = choose|j: int| #[trigger] egress_pass(
                        s1,
                        s2,
                        false,
                        j,
                        old(self).src_addr(),
                        h1,
                        device.tx_history(),
                    );
                    assert(s2 == s1);
                    assert(egress_pass(s2, s2, false, j, old(self).src_addr(), h1, device.tx_history()));
                }
            }
            if did_ingress || did_egress {
                changed = true;
            } else {
                progressing = false;
            }
        }
        changed
    }

    /// Offer a packet to every module socket.
    fn deliver(&self, sockets: &mut SocketSet, packet: Option<(&VlcbRepr, &[u8])>, expected: Ghost<Option<Seq<u8>>>)
        requires
            old(sockets).wf(),
            packet is None ==> expected@ is None,
            packet matches Some((repr, body)) ==> {
                &&& repr.opcode < 32
                &&& repr.data_len < 8
                &&& body@.len() == repr.data_len
                &&& expected@ == Some(seq![header_octet(repr.opcode, repr.data_len)] + body@)
            },
        ensures
            final(sockets).wf(),
            final(sockets).grows() == old(sockets).grows(),
            final(sockets).slots().len() == old(sockets).slots().len(),
            forall|i: int| 0 <= i < old(sockets).slots().len() ==> slot_delivered(
                #[trigger] old(sockets).slots()[i],
                final(sockets).slots()[i],
                expected@,
            ),
    {
        let n = sockets.len();
        let mut i: usize = 0;
        while i < n
            invariant
                n == old(sockets).slots().len(),
                sockets.slots().len() == n,
                sockets.wf(),
                sockets.grows() == old(sockets).grows(),
                i <= n,
                packet is None ==> expected@ is None,
                packet matches Some((repr, body)) ==> {
                    &&& repr.opcode < 32
                    &&& repr.data_len < 8
                    &&& body@.len() == repr.data_len
                    &&& expected@ == Some(seq![header_octet(repr.opcode, repr.data_len)] + body@)
                },
                forall|k: int| 0 <= k < i ==> slot_delivered(
                    #[trigger] old(sockets).slots()[k],
                    sockets.slots()[k],
                    expected@,
                ),
                forall|k: int| i <= k < n ==> #[trigger] sockets.slots()[k] == old(sockets).slots()[k],
            decreases n - i,
        {
            let ghost cur = sockets.slots();
            assert(slot_wf(cur[i as int]));
            let slot = sockets.slot_mut(i);
            match slot {
                Some(Socket::Module(s)) => {
                    match packet {
                        Some((repr, body)) => s.process(repr, body),
                        None => {},
                    }
                },
                None => {},
            }
            assert(slot_delivered(old(sockets).slots()[i as int], sockets.slots()[i as int], expected@));
            assert forall|k: int| 0 <= k < sockets.slots().len() implies slot_wf(
                #[trigger] sockets.slots()[k],
            ) by {
                if k != i {
                    assert(sockets.slots()[k] == cur[k]);
                }
            }
            i = i + 1;
        }
    }
}

} // verus!
