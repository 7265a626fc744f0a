use can_usb_bridge::frame::{ExtendedId, Frame, Id, StandardId};

#[test]
fn standard_id_takes_eleven_bits() {
    assert_eq!(StandardId::new(0).unwrap().as_raw(), 0);
    assert_eq!(StandardId::new(0x123).unwrap().as_raw(), 0x123);
    assert_eq!(StandardId::new(0x7FF).unwrap().as_raw(), 0x7FF);
    assert!(StandardId::new(0x800).is_none());
    assert!(StandardId::new(0xFFFF).is_none());
}

#[test]
fn extended_id_takes_twenty_nine_bits() {
    assert_eq!(ExtendedId::new(0).unwrap().as_raw(), 0);
    assert_eq!(ExtendedId::new(0x1234_5678).unwrap().as_raw(), 0x1234_5678);
    assert_eq!(ExtendedId::new(0x1FFF_FFFF).unwrap().as_raw(), 0x1FFF_FFFF);
    assert!(ExtendedId::new(0x2000_0000).is_none());
    assert!(ExtendedId::new(u32::MAX).is_none());
}

#[test]
fn frame_keeps_id_and_payload() {
    let id = Id::Standard(StandardId::new(0x123).unwrap());
    let frame = Frame::new_data(id, &[0xAB, 0xCD]).unwrap();
    assert_eq!(frame.id(), id);
    assert_eq!(frame.len(), 2);
    assert_eq!(frame.data(), &[0xAB, 0xCD]);

    let id = Id::Extended(ExtendedId::new(0x1ABC_DEF0).unwrap());
    let frame = Frame::new_data(id, &[1, 2, 3, 4, 5, 6, 7, 8]).unwrap();
    assert_eq!(frame.id(), id);
    assert_eq!(frame.len(), 8);
    assert_eq!(frame.data(), &[1, 2, 3, 4, 5, 6, 7, 8]);
}

#[test]
fn frame_may_be_empty() {
    let id = Id::Standard(StandardId::new(0).unwrap());
    let frame = Frame::new_data(id, &[]).unwrap();
    assert_eq!(frame.len(), 0);
    assert!(frame.data().is_empty());
}

#[test]
fn frame_payload_is_limited() {
    let id = Id::Standard(StandardId::new(1).unwrap());
    assert!(Frame::new_data(id, &[0; 9]).is_none());
    assert!(Frame::new_data(id, &[0; 64]).is_none());
}

#[test]
fn frames_differ_by_kind_of_id_and_by_length() {
    let standard = Id::Standard(StandardId::new(5).unwrap());
    let extended = Id::Extended(ExtendedId::new(5).unwrap());
    assert_ne!(Frame::new_data(standard, &[1]), Frame::new_data(extended, &[1]));
    assert_ne!(Frame::new_data(standard, &[1]), Frame::new_data(standard, &[1, 0]));
    assert_eq!(Frame::new_data(standard, &[1]), Frame::new_data(standard, &[1]));
}
