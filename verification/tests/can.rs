use can_usb_bridge::can::{
    can_usb_bridge, is_event_allowed, oldest_mailbox, run_configurable, run_normal, run_resetting,
    takes_commands, transceiver_in_standby, CanAction, CanConfig, CanEvent, CanState, InFlight,
    NominalBitTiming, TxQueue, TxRequest,
};
use can_usb_bridge::frame::{ExtendedId, Frame, Id};
use can_usb_bridge::messages::{BitTiming, UsbCommand, UsbResponse};

fn frame() -> Frame {
    Frame::new_data(Id::Extended(ExtendedId::new(0x0ABC_DEF1).unwrap()), &[1, 2, 3]).unwrap()
}

/// The frames in flight, given as mailbox and echo ID
fn in_flight(frames: &[(usize, u32)]) -> TxQueue {
    let mut queue = TxQueue::new();
    for &(mailbox, echo_id) in frames {
        assert!(mailbox < 3 && !queue.holds(mailbox));
        queue = queue.with(InFlight { mailbox, echo_id });
    }
    queue
}

/// Normal mode with frames in flight and none waiting
fn normal(frames: &[(usize, u32)]) -> CanState {
    CanState::Normal { in_flight: in_flight(frames), waiting: None }
}

/// Normal mode with frames in flight and another one waiting for a mailbox
fn blocked(frames: &[(usize, u32)], echo_id: u32) -> CanState {
    let waiting = Some(TxRequest { frame: frame(), echo_id });
    CanState::Normal { in_flight: in_flight(frames), waiting }
}

fn resetting(frames: &[(usize, u32)]) -> CanState {
    CanState::Resetting { in_flight: in_flight(frames) }
}

fn tx(echo_id: u32) -> CanEvent {
    CanEvent::Command(UsbCommand::TxFrame { frame: frame(), echo_id })
}

fn echo(channel: u8, echo_id: u32) -> CanAction {
    CanAction::Respond(UsbResponse::EchoId { channel, echo_id })
}

const RESET: CanEvent = CanEvent::Command(UsbCommand::Reset);

/// 500 kbit/s from a clock of 24 MHz
const TIMING: BitTiming =
    BitTiming { prop_seg: 6, phase_seg1: 7, phase_seg2: 2, sjw: 1, brp: 3 };

fn configured(prescaler: u16, seg1: u8, seg2: u8, sync_jump_width: u8) -> CanAction {
    CanAction::Configure(CanConfig {
        automatic_retransmit: false,
        automatic_bus_off_recovery: false,
        nominal_bit_timing: NominalBitTiming { prescaler, seg1, seg2, sync_jump_width },
    })
}

#[test]
fn bit_timing_is_set_in_configuration_mode() {
    assert!(TIMING.is_usable());
    assert_eq!(
        run_configurable(UsbCommand::SetNominalBitTiming(TIMING)),
        (CanState::Configurable, configured(3, 13, 2, 1))
    );
}

#[test]
fn bit_timing_keeps_the_low_bits() {
    let timing = BitTiming {
        prop_seg: 0x1_0001,
        phase_seg1: 0xFF,
        phase_seg2: 0x0304,
        sjw: 0xFFFF_FF01,
        brp: 0x0005_0006,
    };
    assert!(!timing.is_usable());
    let timing = BitTiming { phase_seg1: 0x101, ..timing };
    assert!(timing.is_usable());
    assert_eq!(
        run_configurable(UsbCommand::SetNominalBitTiming(timing)),
        (CanState::Configurable, configured(6, 2, 4, 1))
    );
}

#[test]
fn unusable_bit_timings_are_told() {
    assert!(!BitTiming { brp: 0, ..TIMING }.is_usable());
    assert!(!BitTiming { brp: 0x1_0000, ..TIMING }.is_usable());
    assert!(!BitTiming { prop_seg: 0, phase_seg1: 0, ..TIMING }.is_usable());
    assert!(!BitTiming { prop_seg: 128, phase_seg1: 128, ..TIMING }.is_usable());
    assert!(!BitTiming { prop_seg: u32::MAX, phase_seg1: 2, ..TIMING }.is_usable());
    assert!(!BitTiming { phase_seg2: 0x100, ..TIMING }.is_usable());
    assert!(!BitTiming { sjw: 0, ..TIMING }.is_usable());
    let event =
        CanEvent::Command(UsbCommand::SetNominalBitTiming(BitTiming { sjw: 0, ..TIMING }));
    assert!(!is_event_allowed(CanState::Configurable, event));
    assert!(is_event_allowed(normal(&[]), event));
}

#[test]
fn largest_advertised_timing_is_kept() {
    let timing =
        BitTiming { prop_seg: 127, phase_seg1: 128, phase_seg2: 128, sjw: 128, brp: 512 };
    assert!(timing.is_usable());
    assert_eq!(
        run_configurable(UsbCommand::SetNominalBitTiming(timing)),
        (CanState::Configurable, configured(512, 255, 128, 128))
    );
}

#[test]
fn start_leaves_configuration_mode() {
    assert_eq!(run_configurable(UsbCommand::Start), (normal(&[]), CanAction::Start));
}

#[test]
fn other_commands_are_unknown_in_configuration_mode() {
    for command in [UsbCommand::Reset, UsbCommand::TxFrame { frame: frame(), echo_id: 1 }] {
        assert_eq!(
            run_configurable(command),
            (CanState::Configurable, CanAction::UnknownCommand(command))
        );
    }
}

#[test]
fn no_frames_in_configuration_mode() {
    for event in [
        CanEvent::Frame(frame()),
        CanEvent::BusError,
        CanEvent::TxFree { mailbox: 0 },
        CanEvent::TxDone { transmitted: true },
        CanEvent::Halted,
    ] {
        assert!(!is_event_allowed(CanState::Configurable, event));
    }
    assert!(is_event_allowed(normal(&[]), CanEvent::Frame(frame())));
    assert!(is_event_allowed(normal(&[]), CanEvent::BusError));
}

#[test]
fn queue_keeps_the_order() {
    let queue = in_flight(&[(2, 7), (0, 8), (1, 9)]);
    assert_eq!(queue.oldest(), Some(InFlight { mailbox: 2, echo_id: 7 }));
    assert!(queue.holds(0) && queue.holds(1) && queue.holds(2));
    let queue = queue.without_oldest();
    assert_eq!(queue, in_flight(&[(0, 8), (1, 9)]));
    assert!(!queue.holds(2));
    let queue = queue.without_oldest();
    assert_eq!(queue.oldest(), Some(InFlight { mailbox: 1, echo_id: 9 }));
    assert_eq!(queue.without_oldest(), TxQueue::new());
    assert_eq!(TxQueue::new().oldest(), None);
}

#[test]
fn frame_is_handed_to_the_controller() {
    assert_eq!(
        run_normal(2, in_flight(&[(0, 3)]), None, tx(0x1234)),
        (blocked(&[(0, 3)], 0x1234), CanAction::AwaitMailbox)
    );
    let request = TxRequest { frame: frame(), echo_id: 0x1234 };
    assert_eq!(
        run_normal(2, in_flight(&[(0, 3)]), Some(request), CanEvent::TxFree { mailbox: 1 }),
        (normal(&[(0, 3), (1, 0x1234)]), CanAction::Transmit(request))
    );
}

#[test]
fn frame_needs_a_mailbox_of_its_own() {
    let full = blocked(&[(0, 1), (1, 2), (2, 3)], 4);
    for mailbox in 0..4 {
        assert!(!is_event_allowed(full, CanEvent::TxFree { mailbox }));
    }
    let state = blocked(&[(0, 1), (2, 3)], 4);
    assert!(!is_event_allowed(state, CanEvent::TxFree { mailbox: 0 }));
    assert!(is_event_allowed(state, CanEvent::TxFree { mailbox: 1 }));
    assert!(!is_event_allowed(normal(&[]), CanEvent::TxFree { mailbox: 1 }));
}

#[test]
fn no_command_is_taken_while_a_frame_waits() {
    assert!(takes_commands(CanState::Configurable));
    assert!(takes_commands(normal(&[(0, 1), (1, 2), (2, 3)])));
    assert!(!takes_commands(blocked(&[], 1)));
    assert!(!takes_commands(resetting(&[(0, 1)])));
    assert!(is_event_allowed(normal(&[(0, 1)]), RESET));
    assert!(!is_event_allowed(blocked(&[(0, 1)], 2), RESET));
    assert!(!is_event_allowed(resetting(&[(0, 1)]), RESET));
}

#[test]
fn transmission_is_acknowledged() {
    assert_eq!(
        run_normal(
            2,
            in_flight(&[(1, 0x1234), (0, 5)]),
            None,
            CanEvent::TxDone { transmitted: true }
        ),
        (normal(&[(0, 5)]), echo(2, 0x1234))
    );
}

#[test]
fn failed_transmission_is_not_acknowledged() {
    assert_eq!(
        run_normal(2, in_flight(&[(1, 0x1234)]), None, CanEvent::TxDone { transmitted: false }),
        (normal(&[]), CanAction::TxError { echo_id: 0x1234 })
    );
}

#[test]
fn only_a_frame_in_flight_can_be_done() {
    let done = CanEvent::TxDone { transmitted: true };
    assert!(!is_event_allowed(normal(&[]), done));
    assert!(!is_event_allowed(blocked(&[], 7), done));
    assert!(!is_event_allowed(resetting(&[]), done));
    assert!(is_event_allowed(normal(&[(1, 7)]), done));
    assert_eq!(oldest_mailbox(normal(&[(1, 7), (0, 8)])), Some(1));
    assert_eq!(oldest_mailbox(resetting(&[(2, 7)])), Some(2));
    assert_eq!(oldest_mailbox(normal(&[])), None);
    assert_eq!(oldest_mailbox(CanState::Configurable), None);
}

#[test]
fn reset_without_frames_in_flight_is_immediate() {
    assert_eq!(
        run_normal(1, TxQueue::new(), None, RESET),
        (CanState::Configurable, CanAction::IntoConfigMode)
    );
}

#[test]
fn reset_loses_no_acknowledgement() {
    let mut state = normal(&[(0, 10), (2, 11), (1, 12)]);
    let steps = [
        (RESET, CanAction::Halt),
        (CanEvent::TxDone { transmitted: true }, echo(1, 10)),
        (CanEvent::TxDone { transmitted: false }, CanAction::TxError { echo_id: 11 }),
        (CanEvent::TxDone { transmitted: true }, echo(1, 12)),
        (CanEvent::Halted, CanAction::IntoConfigMode),
    ];
    for (event, expected) in steps {
        assert!(is_event_allowed(state, event));
        assert_eq!(is_event_allowed(state, CanEvent::Halted), event == CanEvent::Halted);
        let (next, action) = can_usb_bridge(1, state, event);
        assert_eq!(action, expected);
        assert!(transceiver_in_standby(next));
        state = next;
    }
    assert_eq!(state, CanState::Configurable);
    assert_eq!(
        run_resetting(0, TxQueue::new(), CanEvent::Halted),
        (CanState::Configurable, CanAction::IntoConfigMode)
    );
}

#[test]
fn transceiver_is_in_standby_in_configuration_mode() {
    assert!(transceiver_in_standby(CanState::Configurable));
    assert!(transceiver_in_standby(resetting(&[(0, 1)])));
    assert!(!transceiver_in_standby(normal(&[])));
    assert!(!transceiver_in_standby(blocked(&[(0, 1)], 2)));
}

#[test]
fn reception_is_forwarded() {
    for state in [normal(&[]), normal(&[(0, 1)]), blocked(&[(0, 1)], 2)] {
        assert_eq!(
            can_usb_bridge(1, state, CanEvent::Frame(frame())),
            (state, CanAction::Respond(UsbResponse::RxFrame { channel: 1, frame: frame() }))
        );
    }
}

#[test]
fn bus_error_is_reported() {
    assert_eq!(
        run_normal(0, TxQueue::new(), None, CanEvent::BusError),
        (normal(&[]), CanAction::RxError)
    );
}

#[test]
fn other_commands_are_unknown_in_normal_mode() {
    for command in [UsbCommand::Start, UsbCommand::SetNominalBitTiming(TIMING)] {
        assert_eq!(
            run_normal(0, in_flight(&[(0, 1)]), None, CanEvent::Command(command)),
            (normal(&[(0, 1)]), CanAction::UnknownCommand(command))
        );
    }
}

#[test]
fn one_advertised_sum_is_unusable() {
    for (prop_seg, phase_seg1) in [(0, 1), (0, 255), (100, 155)] {
        assert!(BitTiming { prop_seg, phase_seg1, ..TIMING }.is_usable());
    }
    for prop_seg in 0..=256 {
        let phase_seg1 = 256 - prop_seg;
        assert!(!BitTiming { prop_seg, phase_seg1, ..TIMING }.is_usable());
    }
}

/// `ip link set can0 type can bitrate 500000`, `ip link set can0 up`, traffic, and down again
#[test]
fn channel_comes_up_and_down() {
    let faster = BitTiming { brp: 2, ..TIMING };
    let set = |timing| CanEvent::Command(UsbCommand::SetNominalBitTiming(timing));
    let free = |mailbox| CanEvent::TxFree { mailbox };
    let done = |transmitted| CanEvent::TxDone { transmitted };
    let steps = [
        (RESET, CanState::Configurable),
        (set(TIMING), CanState::Configurable),
        (tx(4), CanState::Configurable),
        (CanEvent::Command(UsbCommand::Start), normal(&[])),
        (tx(5), blocked(&[], 5)),
        (free(0), normal(&[(0, 5)])),
        (tx(6), blocked(&[(0, 5)], 6)),
        (free(1), normal(&[(0, 5), (1, 6)])),
        (set(faster), normal(&[(0, 5), (1, 6)])),
        (done(false), normal(&[(1, 6)])),
        (tx(7), blocked(&[(1, 6)], 7)),
        (CanEvent::Frame(frame()), blocked(&[(1, 6)], 7)),
        (done(true), blocked(&[], 7)),
        (free(1), normal(&[(1, 7)])),
        (CanEvent::BusError, normal(&[(1, 7)])),
        (RESET, resetting(&[(1, 7)])),
        (done(true), resetting(&[])),
        (CanEvent::Halted, CanState::Configurable),
        (set(faster), CanState::Configurable),
    ];
    let mut state = CanState::Configurable;
    let mut responses = Vec::new();
    let mut transmissions = Vec::new();
    let mut failures = Vec::new();
    let mut prescalers = Vec::new();
    for (event, next) in steps {
        assert!(is_event_allowed(state, event));
        let (after, action) = can_usb_bridge(1, state, event);
        assert_eq!(after, next);
        assert_eq!(transceiver_in_standby(after), !matches!(next, CanState::Normal { .. }));
        match action {
            CanAction::Transmit(request) => transmissions.push(request.echo_id),
            CanAction::Configure(config) => prescalers.push(config.nominal_bit_timing.prescaler),
            CanAction::Respond(response) => responses.push(response),
            CanAction::TxError { echo_id } => failures.push(echo_id),
            _ => {}
        }
        state = after;
    }
    assert_eq!(transmissions, vec![5, 6, 7]);
    assert_eq!(failures, vec![5]);
    assert_eq!(prescalers, vec![3, 2]);
    assert_eq!(
        responses,
        vec![
            UsbResponse::RxFrame { channel: 1, frame: frame() },
            UsbResponse::EchoId { channel: 1, echo_id: 6 },
            UsbResponse::EchoId { channel: 1, echo_id: 7 },
        ]
    );
}
