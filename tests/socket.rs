use vlcb_network::socket::module::{BindError, RecvError, SendError, Socket as ModuleSocket};
use vlcb_network::socket::{AnySocket, PollAt, Socket};
use vlcb_network::storage::PacketBuffer;
use vlcb_network::wire::vlcb::{Protocol, Repr as VlcbRepr};

fn socket(rx_packets: usize, tx_packets: usize) -> ModuleSocket {
    ModuleSocket::new(
        PacketBuffer::new(rx_packets, 64),
        PacketBuffer::new(tx_packets, 64),
    )
}

#[test]
fn send_slice_fills_exactly_the_capacity() {
    for n in 0..5usize {
        let mut s = socket(1, n);
        assert_eq!(s.packet_send_capacity(), n);
        for _ in 0..n {
            assert!(s.can_send());
            assert_eq!(s.send_slice(&[0x00, 1, 2]), Ok(()));
        }
        assert!(!s.can_send());
        assert_eq!(s.send_slice(&[0x00, 1, 2]), Err(SendError::BufferFull));
    }
}

#[test]
fn send_slice_respects_the_octet_capacity() {
    let mut s = ModuleSocket::new(PacketBuffer::new(1, 8), PacketBuffer::new(4, 5));
    assert_eq!(s.payload_send_capacity(), 5);
    assert_eq!(s.send_slice(&[1, 2, 3]), Ok(()));
    assert_eq!(s.send_slice(&[1, 2, 3]), Err(SendError::BufferFull));
    assert_eq!(s.send_slice(&[1, 2]), Ok(()));
    assert!(s.send(0).is_ok());
    assert_eq!(s.send(1).err(), Some(SendError::BufferFull));
}

fn socket_with_received(packets: &[&[u8]]) -> ModuleSocket {
    let mut s = socket(4, 1);
    for p in packets {
        let repr = VlcbRepr::new(p[0] & 0x1F, p[0] >> 5, Protocol::Module);
        s.process(&repr, &p[1..]);
    }
    s
}

#[test]
fn recv_slice_truncates_and_drops() {
    let mut s = socket_with_received(&[&[0x41, 0xAA, 0xBB], &[0x20, 0xCC]]);
    let mut small = [0u8; 2];
    assert_eq!(s.recv_slice(&mut small), Err(RecvError::Truncated));
    assert_eq!(small, [0, 0]);
    let mut big = [0u8; 4];
    assert_eq!(s.recv_slice(&mut big), Ok(2));
    assert_eq!(big, [0x20, 0xCC, 0, 0]);
    assert_eq!(s.recv_slice(&mut big), Err(RecvError::Exhausted));
}

#[test]
fn peek_slice_leaves_the_packet() {
    let mut s = socket_with_received(&[&[0x41, 0xAA, 0xBB]]);
    let mut small = [0u8; 1];
    assert_eq!(s.peek_slice(&mut small), Err(RecvError::Truncated));
    let mut big = [0u8; 3];
    assert_eq!(s.peek_slice(&mut big), Ok(3));
    assert_eq!(big, [0x41, 0xAA, 0xBB]);
    assert_eq!(s.peek(), Ok(&[0x41u8, 0xAA, 0xBB][..]));
    assert!(s.can_recv());
    assert_eq!(s.recv(), Ok(vec![0x41, 0xAA, 0xBB]));
    assert!(!s.can_recv());
    assert_eq!(s.recv(), Err(RecvError::Exhausted));
    assert_eq!(s.peek(), Err(RecvError::Exhausted));
}

#[test]
fn process_drops_on_overflow() {
    let mut s = ModuleSocket::new(PacketBuffer::new(1, 8), PacketBuffer::new(1, 8));
    let repr = VlcbRepr::new(1, 1, Protocol::Module);
    s.process(&repr, &[0x10]);
    s.process(&repr, &[0x20]);
    assert_eq!(s.recv(), Ok(vec![0x21, 0x10]));
    assert_eq!(s.recv(), Err(RecvError::Exhausted));
    assert_eq!(s.packet_recv_capacity(), 1);
    assert_eq!(s.payload_recv_capacity(), 8);
}

#[test]
fn poll_at_follows_the_transmit_queue() {
    let mut s = socket(1, 2);
    assert_eq!(s.poll_at(), PollAt::Ingress);
    s.send_slice(&[0x00]).unwrap();
    assert_eq!(s.poll_at(), PollAt::Now);
    let any = s.upcast();
    assert_eq!(any.poll_at(), PollAt::Now);
    assert!(ModuleSocket::downcast(&any).is_some());
    let Socket::Module(inner) = any;
    assert_eq!(inner.packet_send_capacity(), 2);
}

#[test]
fn error_descriptions() {
    assert_eq!(RecvError::Exhausted.to_string(), "exhausted");
    assert_eq!(RecvError::Truncated.to_string(), "truncated");
}

#[test]
fn send_with_keeps_what_the_closure_wrote() {
    let mut s = ModuleSocket::new(PacketBuffer::new(1, 8), PacketBuffer::new(2, 8));
    let n = s.send_with(4, |buf| {
        assert_eq!(buf.len(), 4);
        buf[0] = 0x21;
        buf[1] = 0x99;
        2
    });
    assert_eq!(n, Ok(2));
    let n = s.send_with(8, |buf| {
        buf[0] = 1;
        100
    });
    assert_eq!(n, Err(SendError::BufferFull));
    let n = s.send_with(6, |_| 100);
    assert_eq!(n, Ok(6));
    assert!(!s.can_send());
}

#[test]
fn bind_error_descriptions() {
    assert_eq!(BindError::InvalidState.to_string(), "invalid state");
    assert_eq!(BindError::Unaddressable.to_string(), "unaddressable");
}

#[test]
fn send_hands_back_a_writable_packet() {
    let mut s = socket(1, 2);
    {
        let buf = s.send(3).unwrap();
        assert_eq!(buf, &[0, 0, 0]);
        buf.copy_from_slice(&[0x41, 0x01, 0x02]);
    }
    assert_eq!(s.poll_at(), PollAt::Now);
    let mut set = vlcb_network::iface::socket_set::SocketSet::new_fixed(1);
    set.add(s.upcast()).unwrap();
    let Some(Socket::Module(inner)) = set.slot_mut(0) else { panic!("empty slot") };
    assert_eq!(inner.dispatch_peek(), Some(&[0x41u8, 0x01, 0x02][..]));
}
