//! Bounded packet queues: a limit on the number of packets and a limit on
//! the octets that their payloads take together.

use vstd::prelude::*;

verus! {

/// Total number of octets of a sequence of packets.
pub open spec fn total_octets(s: Seq<Seq<u8>>) -> nat
    decreases s.len(),
{
    if s.len() == 0 {
        0
    } else {
        total_octets(s.drop_last()) + s.last().len()
    }
}

/// Taking the first packet off a queue takes its octets off the total.
pub proof fn lemma_total_octets_drop_first(s: Seq<Seq<u8>>)
    requires
        s.len() > 0,
    ensures
        total_octets(s) == s[0].len() + total_octets(s.subrange(1, s.len() as int)),
    decreases s.len(),
{
    if s.len() > 1 {
        lemma_total_octets_drop_first(s.drop_last());
        assert(s.drop_last().subrange(1, s.len() - 1) =~= s.subrange(1, s.len() as int).drop_last());
    } else {
        assert(s.subrange(1, s.len() as int) =~= Seq::<Seq<u8>>::empty());
        assert(s.drop_last() =~= Seq::<Seq<u8>>::empty());
    }
}

/// `k` copies of one packet.
pub open spec fn repeat(data: Seq<u8>, k: nat) -> Seq<Seq<u8>> {
    Seq::new(k, |i: int| data)
}

/// A queue of `k` copies of one packet holds `k` times its octets.
pub proof fn lemma_total_octets_repeat(data: Seq<u8>, k: nat)
    ensures
        total_octets(repeat(data, k)) == k * data.len(),
    decreases k,
{
    if k > 0 {
        let s = repeat(data, k);
        lemma_total_octets_repeat(data, (k - 1) as nat);
        assert(s.drop_last() =~= repeat(data, (k - 1) as nat));
        assert(s.last() == data);
        assert((k - 1) * data.len() + data.len() == k * data.len()) by (nonlinear_arith);
    } else {
        assert(repeat(data, k).len() == 0);
    }
}

/// A queue with room for `n` packets, whose octet capacity holds `n` copies
/// of a packet, takes that packet while it holds fewer than `n` copies of
/// it, and refuses it once it holds `n`: the first `n` sends of the packet
/// into an empty queue succeed and the next one fails.
pub proof fn lemma_send_capacity(buf: PacketBuffer, data: Seq<u8>, k: nat)
    requires
        buf.wf(),
        buf@ == repeat(data, k),
        buf.packet_cap() * data.len() <= buf.payload_cap(),
    ensures
        k < buf.packet_cap() ==> buf.fits(data.len()),
        k == buf.packet_cap() ==> !buf.fits(data.len()),
{
    lemma_total_octets_repeat(data, k);
    let n = buf.packet_cap();
    if k < n {
        assert((k + 1) * data.len() <= n * data.len()) by (nonlinear_arith)
            requires
                k + 1 <= n,
        ;
        assert(k * data.len() + data.len() == (k + 1) * data.len()) by (nonlinear_arith);
    }
}

/// The queue is empty.
#[derive(Debug, Clone, Copy, PartialEq, Eq)]
pub struct Empty;

/// The queue has no room for the packet.
#[derive(Debug, Clone, Copy, PartialEq, Eq)]
pub struct Full;

/// A first-in first-out queue of packets with fixed capacities.
#[derive(Debug)]
pub struct PacketBuffer {
    packets: Vec<Vec<u8>>,
    used: usize,
    packet_capacity: usize,
    payload_capacity: usize,
}

impl View for PacketBuffer {
    type V = Seq<Seq<u8>>;

    closed spec fn view(&self) -> Seq<Seq<u8>> {
        self.packets@.map_values(|p: Vec<u8>| p@)
    }
}

impl PacketBuffer {
    /// Most packets the queue holds at once.
    pub closed spec fn packet_cap(&self) -> nat {
        self.packet_capacity as nat
    }

    /// Most payload octets the queue holds at once.
    pub closed spec fn payload_cap(&self) -> nat {
        self.payload_capacity as nat
    }

    /// The queue keeps within both capacities.
    pub closed spec fn wf(&self) -> bool {
        &&& self.used == total_octets(self@)
        &&& self@.len() <= self.packet_capacity
        &&& self.used <= self.payload_capacity
    }

    /// Whether a packet of `len` octets fits into the queue as it stands.
    pub open spec fn fits(&self, len: nat) -> bool {
        self@.len() < self.packet_cap() && total_octets(self@) + len <= self.payload_cap()
    }

    /// A well-formed queue holds no more packets, and no more octets, than
    /// its capacities.
    pub proof fn lemma_bounds(&self)
        requires
            self.wf(),
        ensures
            self@.len() <= self.packet_cap(),
            total_octets(self@) <= self.payload_cap(),
    {
    }

    /// An empty queue with the given capacities.
    pub fn new(packet_capacity: usize, payload_capacity: usize) -> (r: Self)
        ensures
            r.wf(),
            r@ == Seq::<Seq<u8>>::empty(),
            r.packet_cap() == packet_capacity,
            r.payload_cap() == payload_capacity,
    {
        let r = PacketBuffer { packets: Vec::new(), used: 0, packet_capacity, payload_capacity };
        assert(r@ =~= Seq::<Seq<u8>>::empty());
        r
    }

    /// Most packets the queue holds at once.
    pub fn packet_capacity(&self) -> (r: usize)
        ensures
            r == self.packet_cap(),
    {
        self.packet_capacity
    }

    /// Most payload octets the queue holds at once.
    pub fn payload_capacity(&self) -> (r: usize)
        ensures
            r == self.payload_cap(),
    {
        self.payload_capacity
    }

    /// Whether the queue holds no packet.
    pub fn is_empty(&self) -> (r: bool)
        requires
            self.wf(),
        ensures
            r == (self@.len() == 0),
    {
        self.packets.len() == 0
    }

    /// Whether the queue holds as many packets as it can.
    pub fn is_full(&self) -> (r: bool)
        requires
            self.wf(),
        ensures
            r == (self@.len() >= self.packet_cap()),
    {
        self.packets.len() >= self.packet_capacity
    }

    /// Whether a packet of `len` octets fits into the queue as it stands.
    pub fn can_enqueue(&self, len: usize) -> (r: bool)
        requires
            self.wf(),
        ensures
            r == self.fits(len as nat),
    {
        self.packets.len() < self.packet_capacity && len <= self.payload_capacity - self.used
    }

    /// Append a copy of `data`, or fail when it does not fit.
    pub fn enqueue(&mut self, data: &[u8]) -> (r: Result<(), Full>)
        requires
            old(self).wf(),
        ensures
            final(self).wf(),
            final(self).packet_cap() == old(self).packet_cap(),
            final(self).payload_cap() == old(self).payload_cap(),
            r is Ok <==> old(self).fits(data@.len()),
            r is Ok ==> final(self)@ == old(self)@.push(data@),
            r is Err ==> final(self)@ == old(self)@,
    {
        if !self.can_enqueue(data.len()) {
            return Err(Full);
        }
        let mut copy: Vec<u8> = Vec::new();
        let mut i: usize = 0;
        while i < data.len()
            invariant
                i <= data@.len(),
                copy@ == data@.subrange(0, i as int),
            decreases data@.len() - i,
        {
            copy.push(data[i]);
            i = i + 1;
            assert(copy@ =~= data@.subrange(0, i as int));
        }
        assert(copy@ =~= data@);
        let ghost before = self@;
        self.packets.push(copy);
        self.used = self.used + data.len();
        assert(self@ =~= before.push(data@));
        assert(self@.drop_last() =~= before);
        Ok(())
    }

    /// Append a packet of `len` zero octets and hand it back to be written
    /// in place, or fail when it does not fit. The queue stays well formed
    /// as long as the packet keeps its length.
    pub fn enqueue_zeroed(&mut self, len: usize) -> (r: Result<&mut [u8], Full>)
        requires
            old(self).wf(),
        ensures
            final(self).packet_cap() == old(self).packet_cap(),
            final(self).payload_cap() == old(self).payload_cap(),
            r is Ok <==> old(self).fits(len as nat),
            r is Err ==> *final(self) == *old(self),
            r matches Ok(b) ==> (*b)@ == Seq::new(len as nat, |i: int| 0u8),
            r matches Ok(b) ==> final(self)@ == old(self)@.push((*final(b))@),
            r matches Ok(b) ==> ((*final(b))@.len() == len && final(self)@ == old(self)@.push((*final(b))@)
                ==> final(self).wf()),
    {
        if !self.can_enqueue(len) {
            return Err(Full);
        }
        let zeros: Vec<u8> = vec![0u8; len];
        assert(zeros@ =~= Seq::new(len as nat, |i: int| 0u8));
        let ghost before = self@;
        self.packets.push(zeros);
        self.used = self.used + len;
        proof {
            assert(self@.drop_last() =~= before);
            assert(before == old(self)@);
            assert forall|x: Seq<u8>| total_octets(#[trigger] old(self)@.push(x)) == total_octets(old(self)@) + x.len() by {
                assert(old(self)@.push(x).drop_last() =~= old(self)@);
            }
        }
        let last = self.packets.len() - 1;
        let slot = &mut self.packets[last];
        Ok(slot.as_mut_slice())
    }

    /// The oldest packet, left in place.
    pub fn peek(&self) -> (r: Result<&[u8], Empty>)
        requires
            self.wf(),
        ensures
            r is Err <==> self@.len() == 0,
            r matches Ok(p) ==> p@ == self@[0],
    {
        if self.packets.len() == 0 {
            Err(Empty)
        } else {
            Ok(self.packets[0].as_slice())
        }
    }

    /// Take the oldest packet off the queue.
    pub fn dequeue(&mut self) -> (r: Result<Vec<u8>, Empty>)
        requires
            old(self).wf(),
        ensures
            final(self).wf(),
            final(self).packet_cap() == old(self).packet_cap(),
            final(self).payload_cap() == old(self).payload_cap(),
            r is Err <==> old(self)@.len() == 0,
            r is Err ==> final(self)@ == old(self)@,
            r matches Ok(p) ==> p@ == old(self)@[0] && final(self)@ == old(self)@.subrange(
                1,
                old(self)@.len() as int,
            ),
    {
        if self.packets.len() == 0 {
            return Err(Empty);
        }
        let ghost before = self@;
        proof {
            lemma_total_octets_drop_first(before);
        }
        let p = self.packets.remove(0);
        self.used = self.used - p.len();
        assert(self@ =~= before.subrange(1, before.len() as int));
        Ok(p)
    }
}

} // verus!
