//! An ordered collection of socket slots, of fixed size or growable.

use vstd::prelude::*;
use crate::socket::Socket;

verus! {

/// Position of a socket in a collection.
#[derive(Debug, Clone, Copy, PartialEq, Eq, Hash, Default)]
pub struct SocketHandle(pub usize);

/// Every slot of the collection is taken and it cannot grow.
#[derive(Debug, Clone, Copy, PartialEq, Eq)]
pub struct SocketSetFull;

/// Packets waiting to be sent from one slot.
pub open spec fn slot_tx(s: Option<Socket>) -> Seq<Seq<u8>> {
    match s {
        Some(sock) => sock.tx_queue(),
        None => Seq::empty(),
    }
}

/// Packets waiting to be taken from one slot.
pub open spec fn slot_rx(s: Option<Socket>) -> Seq<Seq<u8>> {
    match s {
        Some(sock) => sock.rx_queue(),
        None => Seq::empty(),
    }
}

/// A slot is empty or holds a well-formed socket.
pub open spec fn slot_wf(s: Option<Socket>) -> bool {
    match s {
        Some(sock) => sock.wf(),
        None => true,
    }
}

/// Number of packets waiting to be sent over all slots.
pub open spec fn tx_pending(s: Seq<Option<Socket>>) -> nat
    decreases s.len(),
{
    if s.len() == 0 {
        0
    } else {
        tx_pending(s.drop_last()) + slot_tx(s.last()).len()
    }
}

/// Replacing one slot changes the count of waiting packets by the
/// difference between the two slots.
pub proof fn lemma_tx_pending_update(s: Seq<Option<Socket>>, i: int, x: Option<Socket>)
    requires
        0 <= i < s.len(),
    ensures
        tx_pending(s.update(i, x)) + slot_tx(s[i]).len() == tx_pending(s) + slot_tx(x).len(),
    decreases s.len(),
{
    if i < s.len() - 1 {
        lemma_tx_pending_update(s.drop_last(), i, x);
        assert(s.update(i, x).drop_last() =~= s.drop_last().update(i, x));
    } else {
        assert(s.update(i, x).drop_last() =~= s.drop_last());
    }
}

/// Two collections whose slots hold the same packets waiting to be sent
/// hold as many in all.
pub proof fn lemma_tx_pending_ext(a: Seq<Option<Socket>>, b: Seq<Option<Socket>>)
    requires
        a.len() == b.len(),
        forall|i: int| 0 <= i < a.len() ==> slot_tx(#[trigger] a[i]) == slot_tx(b[i]),
    ensures
        tx_pending(a) == tx_pending(b),
    decreases a.len(),
{
    if a.len() > 0 {
        lemma_tx_pending_ext(a.drop_last(), b.drop_last());
        assert(slot_tx(a[a.len() - 1]) == slot_tx(b[b.len() - 1]));
    }
}

/// Slots with nothing to send hold no waiting packet in all.
pub proof fn lemma_tx_pending_zero(s: Seq<Option<Socket>>)
    requires
        forall|i: int| 0 <= i < s.len() ==> slot_tx(#[trigger] s[i]).len() == 0,
    ensures
        tx_pending(s) == 0,
    decreases s.len(),
{
    if s.len() > 0 {
        assert(slot_tx(s[s.len() - 1]).len() == 0);
        lemma_tx_pending_zero(s.drop_last());
    }
}

/// An ordered collection of optional sockets.
#[derive(Debug)]
pub struct SocketSet {
    sockets: Vec<Option<Socket>>,
    growable: bool,
}

impl SocketSet {
    /// The slots, in order.
    pub closed spec fn slots(&self) -> Seq<Option<Socket>> {
        self.sockets@
    }

    /// Whether the collection grows when every slot is taken.
    pub closed spec fn grows(&self) -> bool {
        self.growable
    }

    /// Every socket held is well formed.
    pub open spec fn wf(&self) -> bool {
        forall|i: int| 0 <= i < self.slots().len() ==> slot_wf(#[trigger] self.slots()[i])
    }

    /// A collection of `slots` empty slots that never grows.
    pub fn new_fixed(slots: usize) -> (r: SocketSet)
        ensures
            r.wf(),
            !r.grows(),
            r.slots() == Seq::new(slots as nat, |i: int| None::<Socket>),
    {
        let mut sockets: Vec<Option<Socket>> = Vec::new();
        let mut i: usize = 0;
        while i < slots
            invariant
                i <= slots,
                sockets@ == Seq::new(i as nat, |k: int| None::<Socket>),
            decreases slots - i,
        {
            sockets.push(None);
            i = i + 1;
            assert(sockets@ =~= Seq::new(i as nat, |k: int| None::<Socket>));
        }
        SocketSet { sockets, growable: false }
    }

    /// An empty collection that grows as sockets are added.
    pub fn new_growable() -> (r: SocketSet)
        ensures
            r.wf(),
            r.grows(),
            r.slots() == Seq::<Option<Socket>>::empty(),
    {
        let r = SocketSet { sockets: Vec::new(), growable: true };
        assert(r.sockets@ =~= Seq::<Option<Socket>>::empty());
        r
    }

    /// Number of slots.
    pub fn len(&self) -> (r: usize)
        ensures
            r == self.slots().len(),
    {
        self.sockets.len()
    }

    /// Put a socket into the first empty slot, or into a new slot at the
    /// end when every slot is taken and the collection grows; fails when
    /// every slot is taken and it does not.
    pub fn add(&mut self, socket: Socket) -> (r: Result<SocketHandle, SocketSetFull>)
        requires
            old(self).wf(),
            socket.wf(),
        ensures
            final(self).wf(),
            final(self).grows() == old(self).grows(),
            r is Err <==> !old(self).grows() && forall|i: int|
                0 <= i < old(self).slots().len() ==> (#[trigger] old(self).slots()[i]) is Some,
            r is Err ==> final(self).slots() == old(self).slots(),
            r matches Ok(h) ==> {
                &&& forall|i: int| 0 <= i < h.0 && i < old(self).slots().len()
                    ==> (#[trigger] old(self).slots()[i]) is Some
                &&& h.0 < old(self).slots().len() ==> old(self).slots()[h.0 as int] is None
                    && final(self).slots() == old(self).slots().update(h.0 as int, Some(socket))
                &&& h.0 >= old(self).slots().len() ==> h.0 == old(self).slots().len()
                    && final(self).slots() == old(self).slots().push(Some(socket))
            },
    {
        let mut i: usize = 0;
        while i < self.sockets.len()
            invariant
                i <= self.sockets@.len(),
                self.sockets@ == old(self).sockets@,
                self.growable == old(self).growable,
                socket.wf(),
                old(self).wf(),
                forall|k: int| 0 <= k < i ==> (#[trigger] self.sockets@[k]) is Some,
            decreases self.sockets@.len() - i,
        {
            if self.sockets[i].is_none() {
                self.sockets.set(i, Some(socket));
                assert forall|k: int| 0 <= k < self.slots().len() implies slot_wf(
                    #[trigger] self.slots()[k],
                ) by {
                    if k != i {
                        assert(self.slots()[k] == old(self).slots()[k]);
                        assert(slot_wf(old(self).slots()[k]));
                    } else {
                        assert(self.slots()[k] == Some(socket));
                    }
                }
                return Ok(SocketHandle(i));
            }
            i = i + 1;
        }
        if self.growable {
            self.sockets.push(Some(socket));
            assert forall|k: int| 0 <= k < self.slots().len() implies slot_wf(
                #[trigger] self.slots()[k],
            ) by {
                if k < i {
                    assert(self.slots()[k] == old(self).slots()[k]);
                }
            }
            Ok(SocketHandle(i))
        } else {
            Err(SocketSetFull)
        }
    }

    /// The socket in a slot, if any.
    pub fn get(&self, handle: SocketHandle) -> (r: Option<&Socket>)
        ensures
            r is None <==> handle.0 >= self.slots().len() || self.slots()[handle.0 as int] is None,
            r matches Some(s) ==> self.slots()[handle.0 as int] == Some(*s),
    {
        if handle.0 >= self.sockets.len() {
            None
        } else {
            self.sockets[handle.0].as_ref()
        }
    }

    /// Take the socket out of a slot, leaving the slot empty.
    pub fn remove(&mut self, handle: SocketHandle) -> (r: Option<Socket>)
        requires
            old(self).wf(),
        ensures
            final(self).wf(),
            final(self).grows() == old(self).grows(),
            handle.0 >= old(self).slots().len() ==> r is None && final(self).slots() == old(self).slots(),
            handle.0 < old(self).slots().len() ==> r == old(self).slots()[handle.0 as int]
                && final(self).slots() == old(self).slots().update(handle.0 as int, None),
    {
        if handle.0 >= self.sockets.len() {
            return None;
        }
        let mut taken: Option<Socket> = None;
        core::mem::swap(&mut taken, &mut self.sockets[handle.0]);
        taken
    }

    /// The slot at position `i`, to be changed in place.
    pub fn slot_mut(&mut self, i: usize) -> (r: &mut Option<Socket>)
        requires
            i < old(self).slots().len(),
        ensures
            *r == old(self).slots()[i as int],
            final(self).slots() == old(self).slots().update(i as int, *final(r)),
            final(self).grows() == old(self).grows(),
    {
        &mut self.sockets[i]
    }
}

} // verus!
