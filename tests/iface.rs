use std::collections::VecDeque;

use vlcb_network::can::VlcbCanId;
use vlcb_network::cbus::VlcbNodeNumber;
use vlcb_network::iface::can_control::{CanControlEvent, CanControlState};
use vlcb_network::iface::interface::{Instant, Interface};
use vlcb_network::iface::socket_set::{SocketHandle, SocketSet, SocketSetFull};
use vlcb_network::phy::{Device, DeviceCapabilities, Medium};
use vlcb_network::socket::module::Socket as ModuleSocket;
use vlcb_network::socket::{AnySocket, Socket};
use vlcb_network::storage::PacketBuffer;
use vlcb_network::wire::HardwareAddress;

struct TestDevice {
    rx: VecDeque<Vec<u8>>,
    tx_credit: usize,
    sent: Vec<Vec<u8>>,
    transmit_calls: usize,
}

impl TestDevice {
    fn new(frames: Vec<Vec<u8>>, tx_credit: usize) -> Self {
        TestDevice { rx: frames.into(), tx_credit, sent: Vec::new(), transmit_calls: 0 }
    }
}

impl Device for TestDevice {
    fn receive(&mut self) -> Option<Vec<u8>> {
        self.rx.pop_front()
    }

    fn transmit(&mut self, frame: &[u8]) -> bool {
        self.transmit_calls += 1;
        if self.tx_credit == 0 {
            return false;
        }
        self.tx_credit -= 1;
        self.sent.push(frame.to_vec());
        true
    }

    fn capabilities(&self) -> DeviceCapabilities {
        DeviceCapabilities { medium: Medium::CAN }
    }
}

fn module_socket() -> Socket {
    Socket::Module(ModuleSocket::new(PacketBuffer::new(8, 64), PacketBuffer::new(8, 64)))
}

fn module(set: &mut SocketSet, i: usize) -> &mut ModuleSocket {
    let socket = set.slot_mut(i).as_mut().expect("empty slot");
    ModuleSocket::downcast_mut(socket).expect("not a module socket")
}

fn interface(device: &TestDevice) -> Interface {
    Interface::new(
        device,
        VlcbNodeNumber::new(0x01, 0x02),
        HardwareAddress::CAN(VlcbCanId::from_bytes(&[0x05])),
    )
}

#[test]
fn poll_reaches_a_fixed_point() {
    let frames = vec![
        vec![0x00, 0x10, 0x21, 0xAB],
        vec![0x00, 0x11, 0x00],
        vec![0x00, 0x12, 0x2B, 0x01],
    ];
    let mut device = TestDevice::new(frames, 16);
    let mut iface = interface(&device);
    let mut set = SocketSet::new_fixed(2);
    set.add(module_socket()).unwrap();
    set.add(module_socket()).unwrap();
    module(&mut set, 0).send_slice(&[0x00]).unwrap();
    module(&mut set, 0).send_slice(&[0x21, 0x42]).unwrap();
    module(&mut set, 1).send_slice(&[0x41, 0x01, 0x02]).unwrap();

    assert!(iface.poll(Instant { millis: 10 }, &mut device, &mut set));
    assert_eq!(iface.now(), Instant { millis: 10 });
    assert!(device.rx.is_empty());
    assert_eq!(
        device.sent,
        vec![
            vec![0x01, 0x85, 0x00],
            vec![0x01, 0x85, 0x41, 0x01, 0x02],
            vec![0x01, 0x85, 0x21, 0x42],
        ]
    );
    for i in 0..2 {
        let s = module(&mut set, i);
        assert!(s.can_send());
        assert_eq!(s.recv(), Ok(vec![0x21, 0xAB]));
        assert_eq!(s.recv(), Ok(vec![0x00]));
        assert!(!s.can_recv());
    }

    assert!(!iface.poll(Instant { millis: 11 }, &mut device, &mut set));
}

#[test]
fn egress_stops_when_the_device_is_exhausted() {
    let mut device = TestDevice::new(vec![], 1);
    let mut iface = interface(&device);
    let mut set = SocketSet::new_growable();
    for _ in 0..3 {
        set.add(module_socket()).unwrap();
    }
    for i in 0..3 {
        module(&mut set, i).send_slice(&[0x00]).unwrap();
    }
    assert!(iface.egress_packets(&mut device, &mut set));
    assert_eq!(device.sent.len(), 1);
    assert_eq!(device.transmit_calls, 2);
    assert!(module(&mut set, 0).can_send());
    assert_eq!(module(&mut set, 1).poll_at(), vlcb_network::socket::PollAt::Now);
    assert_eq!(module(&mut set, 2).poll_at(), vlcb_network::socket::PollAt::Now);

    device.tx_credit = 0;
    assert!(!iface.poll(Instant { millis: 1 }, &mut device, &mut set));
    device.tx_credit = 5;
    assert!(iface.poll(Instant { millis: 2 }, &mut device, &mut set));
    assert_eq!(device.sent.len(), 3);
}

#[test]
fn malformed_frames_are_dropped() {
    let frames = vec![
        vec![0x00],
        vec![0x00, 0x01],
        vec![0x00, 0x01, 0x0B],
        vec![0x00, 0x01, 0x41, 0x01],
        vec![0x00; 11],
    ];
    let mut device = TestDevice::new(frames, 4);
    let mut iface = interface(&device);
    let mut set = SocketSet::new_fixed(1);
    set.add(module_socket()).unwrap();
    module(&mut set, 0).send_slice(&[0x0B]).unwrap();
    assert!(iface.poll(Instant { millis: 0 }, &mut device, &mut set));
    assert!(device.rx.is_empty());
    assert!(device.sent.is_empty());
    assert!(!module(&mut set, 0).can_recv());
    assert_eq!(module(&mut set, 0).poll_at(), vlcb_network::socket::PollAt::Ingress);
}

#[test]
fn idle_poll_reports_nothing() {
    let mut device = TestDevice::new(vec![], 4);
    let mut iface = interface(&device);
    let mut set = SocketSet::new_fixed(1);
    set.add(module_socket()).unwrap();
    assert!(!iface.poll(Instant { millis: 0 }, &mut device, &mut set));
    assert_eq!(device.transmit_calls, 0);
}

#[test]
fn fixed_socket_set_reports_full() {
    let mut set = SocketSet::new_fixed(2);
    assert_eq!(set.add(module_socket()).unwrap(), SocketHandle(0));
    assert_eq!(set.add(module_socket()).unwrap(), SocketHandle(1));
    assert_eq!(set.add(module_socket()).unwrap_err(), SocketSetFull);
    assert!(set.remove(SocketHandle(0)).is_some());
    assert!(set.get(SocketHandle(0)).is_none());
    assert_eq!(set.add(module_socket()).unwrap(), SocketHandle(0));
    assert!(set.get(SocketHandle(5)).is_none());
    assert_eq!(set.len(), 2);
}

#[test]
fn growable_socket_set_grows() {
    let mut set = SocketSet::new_growable();
    for i in 0..5 {
        assert_eq!(set.add(module_socket()).unwrap(), SocketHandle(i));
    }
    assert_eq!(set.len(), 5);
    assert!(set.get(SocketHandle(4)).is_some());
}

#[test]
fn interface_addresses() {
    let device = TestDevice::new(vec![], 0);
    let mut iface = interface(&device);
    assert_eq!(iface.addr(), VlcbNodeNumber::new(1, 2));
    assert_eq!(iface.device_caps(), &DeviceCapabilities { medium: Medium::CAN });
    iface.set_addr(VlcbNodeNumber::new(3, 4));
    assert_eq!(iface.addr(), VlcbNodeNumber::new(3, 4));
    let hw = HardwareAddress::CAN(VlcbCanId::from_bytes(&[0x10]));
    iface.set_hw_addr(hw);
    assert_eq!(iface.hw_addr(), hw);
    assert_eq!(iface.dispatch_frame(&[0x00]).unwrap().into_inner(), vec![0x01, 0x90, 0x00]);
    assert!(iface.dispatch_frame(&[0x0B]).is_none());
    assert!(iface.dispatch_frame(&[0x40, 1]).is_none());
}

#[test]
fn enumeration_state_machine() {
    let s = CanControlState::default();
    assert_eq!(s, CanControlState::Idle);
    let s = s.consume(CanControlEvent::Poll { now: Instant { millis: 5 } });
    assert_eq!(s, CanControlState::Idle);
    let s = s.consume(CanControlEvent::RequestEnumeration { now: Instant { millis: 10 } });
    assert_eq!(s, CanControlState::StartingEnumeration { started_at: Instant { millis: 10 } });
    let s = s.consume(CanControlEvent::Poll { now: Instant { millis: 20 } });
    assert_eq!(
        s,
        CanControlState::Enumerating { started_at: Instant { millis: 10 }, responses: 1 }
    );
    let s = s.consume(CanControlEvent::Poll { now: Instant { millis: 109 } });
    assert!(matches!(s, CanControlState::Enumerating { .. }));
    let s = s.consume(CanControlEvent::Poll { now: Instant { millis: 110 } });
    assert_eq!(s, CanControlState::Idle);
}
