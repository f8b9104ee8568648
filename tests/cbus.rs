use vlcb_network::cbus::{EventId, VlcbNodeNumber};
use vlcb_network::dcc::LocoAddress;
use vlcb_network::module::ModuleVersion;

#[test]
fn short_and_long_events_differ() {
    for a in [0u8, 0x12, 0xFF] {
        for b in [0u8, 0x34, 0xFF] {
            let short = EventId::short_from_bytes(&[a, b, 0x01, 0x02]);
            let long = EventId::from_bytes(&[0x00, 0x00, 0x01, 0x02]);
            assert_eq!(short.as_bytes(), long.as_bytes());
            assert_ne!(short, long);
        }
    }
}

#[test]
fn event_constructors() {
    let e = EventId::new(false, 1, 2, 3, 4);
    assert_eq!(e.as_bytes(), &[1, 2, 3, 4]);
    assert!(e.is_long());
    assert!(!e.is_short());
    assert_eq!(e.node_num(), VlcbNodeNumber::new(1, 2));
    assert_eq!(e.event_num(), 0x0304);
    assert_eq!(EventId::from_bytes(&[1, 2, 3, 4]), e);

    let s = EventId::short_from_bytes(&[9, 9, 3, 4]);
    assert!(s.is_short());
    assert_eq!(s.as_bytes(), &[0, 0, 3, 4]);
    assert_eq!(s, EventId::new(true, 0, 0, 3, 4));

    let nn = VlcbNodeNumber::new(0x01, 0x00);
    let f = EventId::from_node_and_id(&nn, 0xABCD, false);
    assert_eq!(f.as_bytes(), &[0x01, 0x00, 0xAB, 0xCD]);
    assert_eq!(f.node_num(), nn);
}

#[test]
fn node_number() {
    assert_eq!(VlcbNodeNumber::default().as_bytes(), &[0, 0]);
    assert_eq!(VlcbNodeNumber::from_bytes(&[1, 2]), VlcbNodeNumber::new(1, 2));
}

#[test]
fn loco_addresses() {
    let short = LocoAddress::new(3);
    assert!(!short.is_long());
    assert_eq!(short.as_bytes(), [0, 3]);
    assert_eq!(short.as_bytes_sanitized(), [0, 3]);

    let long = LocoAddress::new_long(0x1234);
    assert!(long.is_long());
    assert_eq!(long.as_bytes(), [0x12, 0x34]);
    assert_eq!(long.as_bytes_sanitized(), [0xD2, 0x34]);
}

#[test]
fn module_version() {
    let v = ModuleVersion::new(2, 'b', 0);
    assert_eq!(v.major(), 2);
    assert_eq!(v.minor(), b'b');
    assert_eq!(v.beta(), 0);
}
