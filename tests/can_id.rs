use vlcb_network::can::VlcbCanId;
use vlcb_network::wire::{HardwareAddress, RawHardwareAddress};
use vlcb_network::phy::Medium;

#[test]
fn test_address() {
    let addr = VlcbCanId::from_bytes(&[0xFF]);
    assert_eq!(addr.as_bytes(), &[0x7F]);
    assert_eq!(addr.to_string(), "7F");
}

#[test]
fn can_id_keeps_low_seven_bits() {
    for b in 0u8..=255 {
        let addr = VlcbCanId::from_bytes(&[b]);
        assert_eq!(addr.as_bytes()[0] & 0x80, 0);
        assert_eq!(addr.as_bytes()[0], b & 0x7F);
    }
}

#[test]
fn can_id_hex_digits() {
    assert_eq!(VlcbCanId::from_bytes(&[0x0A]).to_string(), "0A");
    assert_eq!(VlcbCanId::from_bytes(&[0x00]).to_string(), "00");
    assert_eq!(VlcbCanId::from_bytes(&[0xB5]).to_string(), "35");
}

#[test]
fn raw_hardware_address_parses_one_octet() {
    let raw = RawHardwareAddress::from_bytes(&[0x85]);
    assert_eq!(raw.len(), 1);
    assert!(!raw.is_empty());
    assert_eq!(raw.as_bytes(), &[0x85]);
    let parsed = raw.parse(Medium::CAN).unwrap();
    assert_eq!(parsed, HardwareAddress::CAN(VlcbCanId::from_bytes(&[0x05])));
    assert_eq!(parsed.as_bytes(), &[0x05]);
}

#[test]
fn raw_hardware_address_of_wrong_length_is_refused() {
    let empty = RawHardwareAddress::from_bytes(&[]);
    assert!(empty.is_empty());
    assert!(empty.parse(Medium::CAN).is_err());
    let two = RawHardwareAddress::from_bytes(&[0x01, 0x02]);
    assert_eq!(two.as_bytes(), &[0x01, 0x02]);
    assert!(two.parse(Medium::CAN).is_err());
}
