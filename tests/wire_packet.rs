use vlcb_network::wire::vlcb::{Address, Packet, Protocol, Repr as VlcbRepr};

#[test]
fn packet_header_round_trip() {
    for opcode in 0u8..32 {
        for len in 0u8..8 {
            let mut packet = Packet::new_unchecked(vec![0u8; 8]);
            packet.set_opcode(opcode);
            packet.set_payload_len(len);
            assert_eq!(packet.opcode(), opcode);
            assert_eq!(packet.payload_len(), len);
        }
    }
}

#[test]
fn packet_header_octet_layout() {
    let mut packet = Packet::new_unchecked(vec![0u8; 3]);
    packet.set_opcode(0x11);
    packet.set_payload_len(2);
    assert_eq!(packet.into_inner(), vec![0x51, 0, 0]);
}

#[test]
fn setters_keep_the_other_field() {
    let mut packet = Packet::new_unchecked(vec![0xFF]);
    packet.set_opcode(0);
    assert_eq!(packet.payload_len(), 7);
    packet.set_payload_len(0);
    assert_eq!(packet.opcode(), 0);
    assert_eq!(packet.into_inner(), vec![0x00]);
}

#[test]
fn packet_length_check() {
    assert!(Packet::new_checked(vec![]).is_err());
    assert!(Packet::new_checked(vec![0x00]).is_ok());
    assert!(Packet::new_checked(vec![0x40, 1]).is_err());
    let packet = Packet::new_checked(vec![0x40, 1, 2, 9]).unwrap();
    assert_eq!(packet.total_len(), 3);
    assert_eq!(packet.header_len(), 1);
    assert_eq!(packet.payload(), &[1, 2]);
}

#[test]
fn parse_recognises_opcodes() {
    let ack = Packet::new_checked(vec![0x00]).unwrap();
    let repr = VlcbRepr::parse(&ack).unwrap();
    assert_eq!(repr, VlcbRepr::new(0, 0, Protocol::Module));
    assert_eq!(repr.next_header(), Protocol::Module);
    assert_eq!(repr.header_len(), 1);

    let query = Packet::new_checked(vec![0x2D, 0x42]).unwrap();
    let repr = VlcbRepr::parse(&query).unwrap();
    assert_eq!(repr.opcode, 13);
    assert_eq!(repr.data_len, 1);

    for unknown in [11u8, 14, 15, 18, 31] {
        let packet = Packet::new_checked(vec![unknown]).unwrap();
        assert!(VlcbRepr::parse(&packet).is_err());
    }
}

#[test]
fn short_opcodes_select_the_module_protocol() {
    for opcode in 0u8..32 {
        let packet = Packet::new_unchecked(vec![opcode]);
        assert_eq!(packet.next_header(), Protocol::Module);
    }
}

#[test]
fn emit_writes_header_and_payload() {
    let repr = VlcbRepr::new(0x10, 3, Protocol::Module);
    let packet = repr.emit(&[7, 8, 9]);
    assert_eq!(packet.into_inner(), vec![0x70, 7, 8, 9]);
}

#[test]
fn protocol_address() {
    let a = Address::new(0x12, 0x34);
    assert_eq!(a.as_bytes(), &[0x12, 0x34]);
    assert_eq!(Address::from_bytes(&[0x12, 0x34]), a);
}

#[test]
fn extension_packets() {
    assert_eq!(vlcb_network::ext::no_data(0x05), vec![0x3F, 0x05]);
    assert_eq!(vlcb_network::ext::from_bytes(0x10, &[1, 2]), vec![0x7F, 0x10, 1, 2]);
    assert_eq!(
        vlcb_network::ext::from_bytes(0xAA, &[1, 2, 3, 4, 5, 6]),
        vec![0xFF, 0xAA, 1, 2, 3, 4, 5, 6]
    );
    let packet = Packet::new_checked(vlcb_network::ext::from_bytes(0x10, &[1, 2])).unwrap();
    assert_eq!(packet.opcode(), 31);
    assert_eq!(packet.payload(), &[0x10, 1, 2]);
}

#[test]
fn packet_payload_mut_covers_the_declared_payload() {
    let mut packet = Packet::new_checked(vec![0x41, 0, 0, 0xEE]).unwrap();
    assert_eq!(packet.payload_mut().len(), 2);
    packet.payload_mut().copy_from_slice(&[5, 6]);
    assert_eq!(packet.into_inner(), vec![0x41, 5, 6, 0xEE]);
}

#[test]
fn emit_with_lets_the_writer_fill_the_payload() {
    let repr = VlcbRepr::new(0x0D, 2, Protocol::Module);
    let mut packet = Packet::new_unchecked(vec![0xFF, 0, 0, 0xEE]);
    repr.emit_with(&mut packet, |buf| {
        assert_eq!(buf.len(), 2);
        buf[0] = 0x12;
        buf[1] = 0x34;
    });
    assert_eq!(packet.into_inner(), vec![0x4D, 0x12, 0x34, 0xEE]);
}
