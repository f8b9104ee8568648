use vlcb_network::can::VlcbCanId;
use vlcb_network::wire::can::{
    buffer_from_standard_frame, standard_frame_id, Frame, Priority, Repr as FrameRepr,
};

fn header(frame: &Frame) -> u16 {
    let b = frame.clone().into_inner();
    u16::from_be_bytes([b[0], b[1]])
}

#[test]
fn test_src_addr() {
    let mut frame = Frame::new_unchecked(vec![0u8; 10]);
    let mut addr = VlcbCanId::from_bytes(&[0x7F]);

    frame.set_src_addr(addr);
    assert_eq!(frame.src_addr(), addr);
    assert_eq!(header(&frame), 0x007F);

    addr = VlcbCanId::from_bytes(&[0x00]);
    frame.set_src_addr(addr);
    let b = frame.into_inner();
    assert_eq!(u32::from_be_bytes([b[0], b[1], b[2], b[3]]), 0x0);
}

#[test]
fn frame_round_trip_all_fields() {
    let prios = [Priority::High, Priority::AboveNormal, Priority::Normal, Priority::Low];
    for addr in [0u8, 1, 0x2A, 0x7F] {
        for prio in prios {
            for rtr in [false, true] {
                for len in 0..=8usize {
                    let payload: Vec<u8> = (0..len as u8).map(|i| i.wrapping_mul(37)).collect();
                    let repr = FrameRepr {
                        src_addr: VlcbCanId::from_bytes(&[addr]),
                        priority: prio,
                        rtr,
                    };
                    let frame = repr.emit(&payload);
                    let checked = Frame::new_checked(frame.into_inner()).unwrap();
                    let back = FrameRepr::parse(&checked);
                    assert_eq!(back, repr);
                    assert_eq!(checked.payload(), &payload[..]);
                }
            }
        }
    }
}

#[test]
fn frame_header_layout() {
    let repr = FrameRepr {
        src_addr: VlcbCanId::from_bytes(&[0x05]),
        priority: Priority::Low,
        rtr: true,
    };
    let frame = repr.emit(&[0xAA]);
    assert_eq!(frame.into_inner(), vec![0x81, 0x85, 0xAA]);
}

#[test]
fn setters_keep_other_fields() {
    let mut frame = Frame::new_unchecked(vec![0xFF, 0xFF, 0x11, 0x22]);
    frame.set_priority(Priority::High);
    assert_eq!(frame.priority(), Priority::High);
    assert_eq!(frame.src_addr(), VlcbCanId::from_bytes(&[0x7F]));
    assert!(frame.is_rtr());
    assert_eq!(header(&frame), 0xFE7F);
    frame.set_rtr(false);
    assert!(!frame.is_rtr());
    assert_eq!(frame.priority(), Priority::High);
    frame.set_src_addr(VlcbCanId::from_bytes(&[0x01]));
    assert_eq!(header(&frame), 0x7E01);
    assert_eq!(frame.payload(), &[0x11, 0x22]);
}

#[test]
fn frame_length_check() {
    assert!(Frame::new_checked(vec![]).is_err());
    assert!(Frame::new_checked(vec![0]).is_err());
    assert!(Frame::new_checked(vec![0; 2]).is_ok());
    assert!(Frame::new_checked(vec![0; 10]).is_ok());
    assert!(Frame::new_checked(vec![0; 11]).is_err());
    assert_eq!(Frame::header_len(), 2);
    assert_eq!(Frame::buffer_len(5), 7);
}

#[test]
fn default_priority_is_low() {
    assert_eq!(Priority::default(), Priority::Low);
    assert_eq!(Priority::from_code(7), Priority::Low);
    assert_eq!(Priority::from_code(1), Priority::AboveNormal);
    assert_eq!(Priority::Normal.code(), 2);
}

#[test]
fn standard_frame_conversions() {
    let data = [0xAF, 0x00, 0xBF, 0x00, 0xCF, 0x00, 0xDF, 0x00];
    let buffer = buffer_from_standard_frame(0x00FF, false, &data);
    assert_eq!(
        buffer,
        vec![0x00, 0xFF, 0xAF, 0x00, 0xBF, 0x00, 0xCF, 0x00, 0xDF, 0x00]
    );
    let frame = Frame::new_checked(buffer).unwrap();
    assert_eq!(standard_frame_id(&frame), 0x00FF);
    assert!(!frame.is_rtr());

    let remote = buffer_from_standard_frame(0x00FF, true, &data);
    assert_eq!(remote, vec![0x80, 0xFF]);
    let frame = Frame::new_checked(remote).unwrap();
    assert!(frame.is_rtr());
    assert_eq!(standard_frame_id(&frame), 0x00FF);
}

#[test]
fn frame_payload_mut_writes_after_the_header() {
    let mut frame = Frame::new_unchecked(vec![0x12, 0x34, 0, 0, 0]);
    frame.payload_mut().copy_from_slice(&[7, 8, 9]);
    assert_eq!(frame.into_inner(), vec![0x12, 0x34, 7, 8, 9]);
}
