use can_usb_bridge::bulk::{can_to_usb, is_transfer_allowed, usb_to_can, BULK_BUF_SIZE};
use can_usb_bridge::can::{
    can_usb_bridge, is_event_allowed, CanAction, CanConfig, CanEvent, CanState, NominalBitTiming,
    TxQueue,
};
use can_usb_bridge::control::{
    GsUsbControlHandler, InResponse, OutResponse, Recipient, Request, RequestType,
};
use can_usb_bridge::messages::{QueuedCommand, INTERFACES};

fn idle() -> CanState {
    CanState::Normal { in_flight: TxQueue::new(), waiting: None }
}

const HANDLER: GsUsbControlHandler = GsUsbControlHandler { if_num: 0 };

fn request(request: u8, value: u16) -> Request {
    Request {
        request_type: RequestType::Vendor,
        recipient: Recipient::Interface,
        request,
        value,
        index: 0,
    }
}

fn queued(code: u8, channel: u16, buf: &[u8]) -> QueuedCommand {
    assert!(HANDLER.is_out_allowed(request(code, channel), buf));
    let reply = HANDLER.control_out(request(code, channel), buf).unwrap();
    assert_eq!(reply.response, OutResponse::Accepted);
    reply.command.unwrap()
}

#[test]
fn echo_id_comes_back() {
    let transfer = [0x11, 0x22, 0x33, 0x44, 0xFF, 7, 0, 0, 1, 2, 0, 0, 0x99];
    assert!(is_transfer_allowed(&transfer));
    let QueuedCommand { channel, command } = usb_to_can(&transfer);
    let (state, action) = can_usb_bridge(channel as u8, idle(), CanEvent::Command(command));
    assert_eq!(action, CanAction::AwaitMailbox);
    let (state, action) = can_usb_bridge(channel as u8, state, CanEvent::TxFree { mailbox: 2 });
    let request = match action {
        CanAction::Transmit(request) => request,
        _ => panic!("not transmitted"),
    };
    assert_eq!(request.frame.data(), &[0x99]);
    let done = CanEvent::TxDone { transmitted: true };
    assert!(is_event_allowed(state, done));
    let (state, action) = can_usb_bridge(channel as u8, state, done);
    assert_eq!(state, idle());
    let acknowledgement = match action {
        CanAction::Respond(response) => response,
        _ => panic!("not acknowledged"),
    };
    let mut buf = [0xFFu8; BULK_BUF_SIZE];
    let len = can_to_usb(acknowledgement, &mut buf);
    assert_eq!(&buf[..len], &[0x11, 0x22, 0x33, 0x44, 0, 0, 0, 0, 0, 2, 0, 0]);
}

#[test]
fn sent_timing_is_set() {
    let mut buf = Vec::new();
    for v in [6u32, 7, 2, 1, 3] {
        buf.extend(v.to_le_bytes());
    }
    let QueuedCommand { channel, command } = queued(1, 1, &buf);
    assert_eq!(channel, 1);
    let event = CanEvent::Command(command);
    assert!(is_event_allowed(CanState::Configurable, event));
    assert_eq!(
        can_usb_bridge(1, CanState::Configurable, event),
        (
            CanState::Configurable,
            CanAction::Configure(CanConfig {
                automatic_retransmit: false,
                automatic_bus_off_recovery: false,
                nominal_bit_timing: NominalBitTiming {
                    prescaler: 3,
                    seg1: 13,
                    seg2: 2,
                    sync_jump_width: 1,
                },
            })
        )
    );
}

#[test]
fn sent_mode_is_taken() {
    let start = CanEvent::Command(queued(2, 0, &[1, 0, 0, 0, 0, 0, 0, 0]).command);
    let reset = CanEvent::Command(queued(2, 0, &[0, 0, 0, 0, 0, 0, 0, 0]).command);
    for state in [CanState::Configurable, idle()] {
        assert_eq!(can_usb_bridge(0, state, start).0, idle());
        assert_eq!(can_usb_bridge(0, state, reset).0, CanState::Configurable);
    }
}

#[test]
fn advertised_channels_exist() {
    let mut buf = [0u8; 64];
    assert_eq!(
        HANDLER.control_in(request(5, 0), &mut buf),
        Some(InResponse::Accepted { len: 12 })
    );
    let icount = buf[3];
    assert_eq!(icount as usize + 1, INTERFACES);
    let mut transfer = [0u8; 12];
    transfer[9] = icount;
    assert!(is_transfer_allowed(&transfer));
    transfer[9] = icount + 1;
    assert!(!is_transfer_allowed(&transfer));
}
