use binary_layout::{FieldReadExt, LittleEndian, PrimitiveField};
use can_usb_bridge::control::{
    GsUsbControlHandler, InResponse, OutReply, OutResponse, Recipient, Request, RequestType,
    CONTROL_BUF_SIZE,
};
use can_usb_bridge::messages::{BitTiming, QueuedCommand, UsbCommand};

const HANDLER: GsUsbControlHandler = GsUsbControlHandler { if_num: 4 };

fn request(request: u8, value: u16) -> Request {
    Request {
        request_type: RequestType::Vendor,
        recipient: Recipient::Interface,
        request,
        value,
        index: 4,
    }
}

fn rejected() -> Option<OutReply> {
    Some(OutReply { response: OutResponse::Rejected, command: None })
}

fn queued(channel: usize, command: UsbCommand) -> Option<OutReply> {
    Some(OutReply {
        response: OutResponse::Accepted,
        command: Some(QueuedCommand { channel, command }),
    })
}

#[test]
fn little_endian_host_is_accepted() {
    let req = request(0, 0);
    assert!(HANDLER.is_out_allowed(req, &[0xEF, 0xBE, 0, 0]));
    assert_eq!(
        HANDLER.control_out(req, &[0xEF, 0xBE, 0, 0]),
        Some(OutReply { response: OutResponse::Accepted, command: None })
    );
}

#[test]
fn big_endian_host_is_rejected() {
    assert_eq!(HANDLER.control_out(request(0, 2), &[0, 0, 0xBE, 0xEF]), rejected());
    assert_eq!(HANDLER.control_out(request(0, 2), &[0xEF, 0xBE, 1, 0]), rejected());
}

#[test]
fn bit_timing_is_queued() {
    let mut buf = Vec::new();
    for v in [1u32, 0x0203, 0x0004_0506, 0x0708_090A, 3] {
        buf.extend(v.to_le_bytes());
    }
    assert_eq!(
        HANDLER.control_out(request(1, 2), &buf),
        queued(
            2,
            UsbCommand::SetNominalBitTiming(BitTiming {
                prop_seg: 1,
                phase_seg1: 0x0203,
                phase_seg2: 0x0004_0506,
                sjw: 0x0708_090A,
                brp: 3,
            })
        )
    );
}

#[test]
fn mode_is_queued() {
    // the flags of the mode do not matter
    assert_eq!(
        HANDLER.control_out(request(2, 0), &[0, 0, 0, 0, 0xFF, 0xFF, 0xFF, 0xFF]),
        queued(0, UsbCommand::Reset)
    );
    assert_eq!(
        HANDLER.control_out(request(2, 1), &[1, 0, 0, 0, 0, 0, 0, 0]),
        queued(1, UsbCommand::Start)
    );
}

#[test]
fn unknown_out_requests_are_rejected() {
    for code in [3, 4, 5, 6, 0xFF] {
        assert!(HANDLER.is_out_allowed(request(code, 0), &[]));
        assert_eq!(HANDLER.control_out(request(code, 0), &[]), rejected());
    }
}

#[test]
fn foreign_requests_are_left_alone() {
    let mut foreign = Vec::new();
    for request_type in [RequestType::Standard, RequestType::Class, RequestType::Reserved] {
        foreign.push(Request { request_type, ..request(5, 99) });
    }
    for recipient in
        [Recipient::Device, Recipient::Endpoint, Recipient::Other, Recipient::Reserved]
    {
        foreign.push(Request { recipient, ..request(5, 99) });
    }
    for index in [0, 3, 5, 0x0104] {
        foreign.push(Request { index, ..request(5, 99) });
    }
    for req in foreign {
        assert!(HANDLER.is_out_allowed(req, &[]));
        assert_eq!(HANDLER.control_out(req, &[]), None);
        assert!(HANDLER.is_in_allowed(req, 0));
        let mut buf = [0x5Au8; 16];
        assert_eq!(HANDLER.control_in(req, &mut buf), None);
        assert_eq!(buf, [0x5A; 16]);
    }
}

#[test]
fn bad_out_requests_are_told() {
    // no such channel, whatever the request
    for code in [0, 1, 2, 7] {
        assert!(HANDLER.is_out_allowed(request(code, 2), &[0; 64]));
        assert!(!HANDLER.is_out_allowed(request(code, 3), &[0; 64]));
        assert!(!HANDLER.is_out_allowed(request(code, 0x0100), &[0; 64]));
    }
    // message cut off
    for (code, size) in [(0, 4), (1, 20), (2, 8)] {
        assert!(HANDLER.is_out_allowed(request(code, 0), &vec![0; size]));
        assert!(!HANDLER.is_out_allowed(request(code, 0), &vec![0; size - 1]));
    }
    // no such mode
    assert!(!HANDLER.is_out_allowed(request(2, 0), &[2, 0, 0, 0, 0, 0, 0, 0]));
    assert!(!HANDLER.is_out_allowed(request(2, 0), &[1, 0, 0, 1, 0, 0, 0, 0]));
}

#[test]
fn device_configuration() {
    let mut buf = [0xC3u8; CONTROL_BUF_SIZE];
    // the channel does not matter
    let req = request(5, 99);
    assert!(HANDLER.is_in_allowed(req, buf.len()));
    assert_eq!(HANDLER.control_in(req, &mut buf), Some(InResponse::Accepted { len: 12 }));
    assert_eq!(&buf[..12], &[0xC3, 0xC3, 0xC3, 2, 18, 0, 0, 0, 11, 0, 0, 0]);
    assert!(buf[12..].iter().all(|b| *b == 0xC3));
}

#[test]
fn bit_timing_limits() {
    let mut buf = [0x3Cu8; CONTROL_BUF_SIZE];
    let req = request(4, 0);
    assert_eq!(HANDLER.control_in(req, &mut buf), Some(InResponse::Accepted { len: 40 }));
    assert_eq!(PrimitiveField::<u32, LittleEndian, 0>::read(&buf), 0x3C3C_3C3C);
    assert_eq!(PrimitiveField::<u32, LittleEndian, 4>::read(&buf), 24_000_000);
    assert_eq!(PrimitiveField::<u32, LittleEndian, 8>::read(&buf), 1);
    assert_eq!(PrimitiveField::<u32, LittleEndian, 12>::read(&buf), 256);
    assert_eq!(PrimitiveField::<u32, LittleEndian, 16>::read(&buf), 1);
    assert_eq!(PrimitiveField::<u32, LittleEndian, 20>::read(&buf), 128);
    assert_eq!(PrimitiveField::<u32, LittleEndian, 24>::read(&buf), 128);
    assert_eq!(PrimitiveField::<u32, LittleEndian, 28>::read(&buf), 1);
    assert_eq!(PrimitiveField::<u32, LittleEndian, 32>::read(&buf), 512);
    assert_eq!(PrimitiveField::<u32, LittleEndian, 36>::read(&buf), 1);
    assert!(buf[40..].iter().all(|b| *b == 0x3C));
}

#[test]
fn unknown_in_requests_are_rejected() {
    for code in [0, 1, 2, 3, 6, 0xFF] {
        let mut buf = [0x5Au8; 4];
        assert!(HANDLER.is_in_allowed(request(code, 0), buf.len()));
        assert_eq!(
            HANDLER.control_in(request(code, 0), &mut buf),
            Some(InResponse::Rejected)
        );
        assert_eq!(buf, [0x5A; 4]);
    }
}

#[test]
fn short_reply_buffers_are_told() {
    assert!(HANDLER.is_in_allowed(request(5, 0), 12));
    assert!(!HANDLER.is_in_allowed(request(5, 0), 11));
    assert!(HANDLER.is_in_allowed(request(4, 0), 40));
    assert!(!HANDLER.is_in_allowed(request(4, 0), 39));
}
