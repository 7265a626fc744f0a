use binary_layout::{FieldReadExt, LittleEndian, PrimitiveField};
use can_usb_bridge::bulk::{
    can_to_usb, is_transfer_allowed, usb_to_can, BULK_BUF_SIZE, BULK_MAX_PACKET_SIZE,
};
use can_usb_bridge::frame::{ExtendedId, Frame, Id, StandardId};
use can_usb_bridge::messages::{QueuedCommand, UsbCommand, UsbResponse};

fn standard(raw: u16, data: &[u8]) -> Frame {
    Frame::new_data(Id::Standard(StandardId::new(raw).unwrap()), data).unwrap()
}

fn extended(raw: u32, data: &[u8]) -> Frame {
    Frame::new_data(Id::Extended(ExtendedId::new(raw).unwrap()), data).unwrap()
}

fn encoded(response: UsbResponse) -> Vec<u8> {
    let mut buf = [0u8; BULK_BUF_SIZE];
    let len = can_to_usb(response, &mut buf);
    buf[..len].to_vec()
}

/// `cansend can0 123#abcd`
#[test]
fn sent_standard_frame() {
    let transfer = [
        0x07, 0, 0, 0, 0x23, 0x01, 0, 0, 2, 0, 0, 0, 0xAB, 0xCD, 0, 0, 0, 0, 0, 0,
    ];
    assert!(is_transfer_allowed(&transfer));
    assert_eq!(
        usb_to_can(&transfer),
        QueuedCommand {
            channel: 0,
            command: UsbCommand::TxFrame { frame: standard(0x123, &[0xAB, 0xCD]), echo_id: 7 },
        }
    );
}

#[test]
fn sent_extended_frame() {
    let transfer = [
        0x04, 0x03, 0x02, 0x01, 0x78, 0x56, 0x34, 0x92, 8, 2, 0xFF, 0xFF, 1, 2, 3, 4, 5, 6, 7, 8,
    ];
    assert!(is_transfer_allowed(&transfer));
    assert_eq!(
        usb_to_can(&transfer),
        QueuedCommand {
            channel: 2,
            command: UsbCommand::TxFrame {
                frame: extended(0x1234_5678, &[1, 2, 3, 4, 5, 6, 7, 8]),
                echo_id: 0x0102_0304,
            },
        }
    );
}

#[test]
fn other_flags_of_the_id_word_are_dropped() {
    // all of the bits between the identifier and the extended flag are set
    let transfer = [0, 0, 0, 0, 0xFF, 0x07, 0xFF, 0x7F, 0, 1, 0, 0];
    assert_eq!(
        usb_to_can(&transfer).command,
        UsbCommand::TxFrame { frame: standard(0x7FF, &[]), echo_id: 0 }
    );
    let transfer = [0, 0, 0, 0, 0xFF, 0xFF, 0xFF, 0xFF, 0, 1, 0, 0];
    assert_eq!(
        usb_to_can(&transfer).command,
        UsbCommand::TxFrame { frame: extended(0x1FFF_FFFF, &[]), echo_id: 0 }
    );
}

#[test]
fn bytes_behind_the_data_are_ignored() {
    let short = [9, 0, 0, 0, 1, 0, 0, 0, 1, 0, 0, 0, 0x55];
    let mut long = short.to_vec();
    long.extend([0xEE; 50]);
    assert!(is_transfer_allowed(&long));
    assert_eq!(usb_to_can(&short), usb_to_can(&long));
}

#[test]
fn header_alone_is_a_frame_without_data() {
    let transfer = [1, 0, 0, 0, 0, 0, 0, 0, 0, 0, 0, 0];
    assert!(is_transfer_allowed(&transfer));
    assert_eq!(
        usb_to_can(&transfer).command,
        UsbCommand::TxFrame { frame: standard(0, &[]), echo_id: 1 }
    );
}

#[test]
fn bad_transfers_are_told() {
    let good = [0, 0, 0, 0, 1, 0, 0, 0, 2, 0, 0, 0, 1, 2];
    assert!(is_transfer_allowed(&good));
    // header cut off
    assert!(!is_transfer_allowed(&[]));
    assert!(!is_transfer_allowed(&good[..11]));
    // data cut off
    assert!(!is_transfer_allowed(&good[..13]));
    // more data than a frame holds
    let mut bad = [0u8; 64];
    bad[8] = 8;
    assert!(is_transfer_allowed(&bad));
    bad[8] = 9;
    assert!(!is_transfer_allowed(&bad));
    // no such channel
    let mut bad = good;
    bad[9] = 3;
    assert!(!is_transfer_allowed(&bad));
    // standard identifier out of range
    let mut bad = good;
    bad[5] = 0x08;
    assert!(!is_transfer_allowed(&bad));
    bad[7] = 0x80;
    assert!(is_transfer_allowed(&bad));
}

#[test]
fn acknowledgement() {
    assert_eq!(
        encoded(UsbResponse::EchoId { channel: 1, echo_id: 0xDEAD_BEEF }),
        [0xEF, 0xBE, 0xAD, 0xDE, 0, 0, 0, 0, 0, 1, 0, 0]
    );
}

#[test]
fn received_standard_frame() {
    assert_eq!(
        encoded(UsbResponse::RxFrame { channel: 2, frame: standard(0x7FF, &[0x11, 0x22, 0x33]) }),
        [0xFF, 0xFF, 0xFF, 0xFF, 0xFF, 0x07, 0, 0, 3, 2, 0, 0, 0x11, 0x22, 0x33]
    );
}

#[test]
fn received_extended_frame() {
    assert_eq!(
        encoded(UsbResponse::RxFrame { channel: 0, frame: extended(0x1ABC_DEF0, &[0xFF; 8]) }),
        [
            0xFF, 0xFF, 0xFF, 0xFF, 0xF0, 0xDE, 0xBC, 0x9A, 8, 0, 0, 0, 0xFF, 0xFF, 0xFF, 0xFF,
            0xFF, 0xFF, 0xFF, 0xFF,
        ]
    );
}

#[test]
fn rest_of_the_buffer_stays() {
    let mut buf = [0xA5u8; BULK_BUF_SIZE];
    let len = can_to_usb(
        UsbResponse::RxFrame { channel: 1, frame: standard(1, &[1, 2, 3]) },
        &mut buf,
    );
    assert_eq!(len, 15);
    assert!(buf[15..].iter().all(|b| *b == 0xA5));

    let mut buf = [0xA5u8; BULK_BUF_SIZE];
    let len = can_to_usb(UsbResponse::EchoId { channel: 1, echo_id: 3 }, &mut buf);
    assert_eq!(len, 12);
    assert!(buf[12..].iter().all(|b| *b == 0xA5));
}

#[test]
fn fields_lie_where_the_host_looks_for_them() {
    let bytes = encoded(UsbResponse::RxFrame {
        channel: 2,
        frame: extended(0x0001_0203, &[9, 8, 7]),
    });
    assert_eq!(PrimitiveField::<u32, LittleEndian, 0>::read(&bytes), u32::MAX);
    assert_eq!(PrimitiveField::<u32, LittleEndian, 4>::read(&bytes), 0x8001_0203);
    assert_eq!(PrimitiveField::<u8, LittleEndian, 8>::read(&bytes), 3);
    assert_eq!(PrimitiveField::<u8, LittleEndian, 9>::read(&bytes), 2);
    assert_eq!(PrimitiveField::<u8, LittleEndian, 10>::read(&bytes), 0);
    assert_eq!(PrimitiveField::<u8, LittleEndian, 11>::read(&bytes), 0);
    assert_eq!(&bytes[12..], &[9, 8, 7]);
}

#[test]
fn received_frame_reads_back() {
    for (channel, frame) in [
        (0, standard(0, &[])),
        (1, standard(0x7FF, &[1, 2, 3, 4, 5, 6, 7, 8])),
        (2, extended(0, &[0])),
        (0, extended(0x1FFF_FFFF, &[0xFF; 8])),
    ] {
        let bytes = encoded(UsbResponse::RxFrame { channel, frame });
        assert!(is_transfer_allowed(&bytes));
        assert_eq!(
            usb_to_can(&bytes),
            QueuedCommand {
                channel: channel as usize,
                command: UsbCommand::TxFrame { frame, echo_id: u32::MAX },
            }
        );
    }
}

#[test]
fn transmitted_frame_comes_back() {
    let transfer = [5, 0, 0, 0, 0x23, 0x01, 0, 0, 2, 1, 9, 9, 0xAB, 0xCD];
    let QueuedCommand { channel, command } = usb_to_can(&transfer);
    let frame = match command {
        UsbCommand::TxFrame { frame, .. } => frame,
        _ => panic!("not a frame"),
    };
    assert_eq!(
        encoded(UsbResponse::RxFrame { channel: channel as u8, frame }),
        [0xFF, 0xFF, 0xFF, 0xFF, 0x23, 0x01, 0, 0, 2, 1, 0, 0, 0xAB, 0xCD]
    );
}

#[test]
fn responses_fit_one_packet() {
    let longest = encoded(UsbResponse::RxFrame { channel: 0, frame: extended(1, &[0; 8]) });
    assert_eq!(longest.len(), 20);
    assert!(longest.len() < BULK_MAX_PACKET_SIZE as usize);
}

#[test]
fn responses_are_distinct_but_for_the_echo_id_of_received_frames() {
    let empty = encoded(UsbResponse::RxFrame { channel: 1, frame: standard(0, &[]) });
    assert_ne!(empty, encoded(UsbResponse::EchoId { channel: 1, echo_id: 0 }));
    assert_ne!(empty, encoded(UsbResponse::RxFrame { channel: 1, frame: extended(0, &[]) }));
    assert_ne!(empty, encoded(UsbResponse::RxFrame { channel: 2, frame: standard(0, &[]) }));
    assert_eq!(empty, encoded(UsbResponse::EchoId { channel: 1, echo_id: u32::MAX }));
}
