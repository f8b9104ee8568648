//! Sockets: application endpoints with bounded receive and transmit queues,
//! one kind per sub-protocol.

use vstd::prelude::*;

pub mod module;

verus! {

/// When a socket next needs a poll.
#[derive(Debug, Clone, Copy, PartialEq, Eq)]
pub enum PollAt {
    /// Right away: packets wait to be sent.
    Now,
    /// Only once something arrives from outside.
    Ingress,
}

/// A socket of any kind.
#[derive(Debug)]
pub enum Socket {
    /// A module socket.
    Module(module::Socket),
}

impl Socket {
    /// The socket's queues keep within their capacities.
    pub open spec fn wf(&self) -> bool {
        match self {
            Socket::Module(s) => s.wf(),
        }
    }

    /// Packets queued to send, oldest first.
    pub open spec fn tx_queue(&self) -> Seq<Seq<u8>> {
        match self {
            Socket::Module(s) => s.tx_queue(),
        }
    }

    /// Packets received and not yet taken, oldest first.
    pub open spec fn rx_queue(&self) -> Seq<Seq<u8>> {
        match self {
            Socket::Module(s) => s.rx_queue(),
        }
    }

    /// When the socket next needs a poll.
    pub fn poll_at(&self) -> (r: PollAt)
        requires
            self.wf(),
        ensures
            r == (if self.tx_queue().len() == 0 {
                PollAt::Ingress
            } else {
                PollAt::Now
            }),
    {
        match self {
            Socket::Module(s) => s.poll_at(),
        }
    }
}

/// Conversion between a socket of one kind and a socket of any kind.
pub trait AnySocket: Sized {
    /// The socket of any kind that holds this one.
    spec fn upcast_spec(self) -> Socket;

    /// Wrap the socket as a socket of any kind.
    fn upcast(self) -> (r: Socket)
        ensures
            r == self.upcast_spec(),
    ;

    /// The socket inside, when it is of this kind.
    fn downcast(socket: &Socket) -> (r: Option<&Self>)
        ensures
            r matches Some(s) ==> s.upcast_spec() == *socket,
            (exists|s: Self| s.upcast_spec() == *socket) ==> r is Some,
    ;

    /// The socket inside, to be changed in place, when it is of this kind.
    fn downcast_mut(socket: &mut Socket) -> (r: Option<&mut Self>)
        ensures
            r matches Some(s) ==> (*s).upcast_spec() == *old(socket) && *final(socket)
                == (*final(s)).upcast_spec(),
            r is None ==> *final(socket) == *old(socket),
            (exists|s: Self| s.upcast_spec() == *old(socket)) ==> r is Some,
    ;
}

impl AnySocket for module::Socket {
    open spec fn upcast_spec(self) -> Socket {
        Socket::Module(self)
    }

    fn upcast(self) -> (r: Socket) {
        Socket::Module(self)
    }

    fn downcast(socket: &Socket) -> (r: Option<&Self>) {
        match socket {
            Socket::Module(s) => Some(s),
        }
    }

    fn downcast_mut(socket: &mut Socket) -> (r: Option<&mut Self>) {
        match socket {
            Socket::Module(s) => Some(s),
        }
    }
}

} // verus!
