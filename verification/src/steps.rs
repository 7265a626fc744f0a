//! What a CAN channel does about each event, step by step.
use crate::can::{
    bridge_step, commands_taken, config_for, configurable_step, event_allowed, holds, in_flight,
    mailboxes_distinct, normal_step, resetting_step, standby, CanAction, CanEvent, CanState,
    CanStateView, InFlight, TxRequest,
};
use crate::frame::Frame;
use crate::messages::{BitTiming, UsbCommand, UsbResponse};
use vstd::prelude::*;

verus! {

/// A state stands for what is written in it.
pub proof fn law_state_stands_for_itself(state: CanState)
    ensures
        state@ is Configurable <==> state is Configurable,
        state matches CanState::Normal { in_flight, waiting } ==> state@ == (CanStateView::Normal {
            in_flight: in_flight@,
            waiting,
        }),
        state matches CanState::Resetting { in_flight } ==> state@ == (CanStateView::Resetting {
            in_flight: in_flight@,
        }),
{
}

/// A step of the channel is a step of the mode that it is in.
pub proof fn law_step_is_one_of_the_mode(
    channel: u8,
    in_flight: Seq<InFlight>,
    waiting: Option<TxRequest>,
    command: UsbCommand,
    event: CanEvent,
)
    ensures
        bridge_step(channel, CanStateView::Configurable, CanEvent::Command(command))
            == configurable_step(command),
        bridge_step(channel, CanStateView::Normal { in_flight, waiting }, event) == normal_step(
            channel,
            in_flight,
            waiting,
            event,
        ),
        bridge_step(channel, CanStateView::Resetting { in_flight }, event) == resetting_step(
            channel,
            in_flight,
            event,
        ),
{
}

/// The frames in flight are those that the state holds. A mailbox holds a frame if one of them is in
/// it, and the mailboxes are distinct if there are no two in the same of the three.
pub proof fn law_frames_in_flight_are_those_of_the_state(
    flying: Seq<InFlight>,
    waiting: Option<TxRequest>,
    mailbox: usize,
)
    ensures
        in_flight(CanStateView::Configurable).len() == 0,
        in_flight(CanStateView::Normal { in_flight: flying, waiting }) == flying,
        in_flight(CanStateView::Resetting { in_flight: flying }) == flying,
        holds(flying, mailbox) <==> flying.map_values(|frame: InFlight| frame.mailbox).contains(
            mailbox,
        ),
        mailboxes_distinct(flying) <==> flying.map_values(
            |frame: InFlight| frame.mailbox,
        ).no_duplicates() && forall|i: int|
            0 <= i < flying.len() ==> (#[trigger] flying[i]).mailbox < 3,
{
    let mailboxes = flying.map_values(|frame: InFlight| frame.mailbox);
    if holds(flying, mailbox) {
        let i = choose|i: int|
            0 <= i < flying.len() && (#[trigger] flying[i]).mailbox == mailbox;
        assert(mailboxes[i] == mailbox);
    }
    if mailboxes.contains(mailbox) {
        let i = choose|i: int| 0 <= i < mailboxes.len() && mailboxes[i] == mailbox;
        assert(flying[i].mailbox == mailbox);
    }
    if mailboxes_distinct(flying) {
        assert forall|i: int, j: int|
            0 <= i < mailboxes.len() && 0 <= j < mailboxes.len() && i != j implies mailboxes[i]
            != mailboxes[j] by {
            assert(mailboxes[i] == flying[i].mailbox && mailboxes[j] == flying[j].mailbox);
        }
    }
    if mailboxes.no_duplicates() {
        assert forall|i: int, j: int| 0 <= i < j < flying.len() implies (
        #[trigger] flying[i]).mailbox != (#[trigger] flying[j]).mailbox by {
            assert(mailboxes[i] == flying[i].mailbox && mailboxes[j] == flying[j].mailbox);
        }
    }
}

/// In configuration mode every command can come, but for a bit timing that the controller cannot
/// take, and nothing else happens.
pub proof fn law_configuration_mode_takes_commands(event: CanEvent)
    ensures
        commands_taken(CanStateView::Configurable),
        event_allowed(CanStateView::Configurable, event) <==> match event {
            CanEvent::Command(UsbCommand::SetNominalBitTiming(timing)) => timing.usable(),
            CanEvent::Command(_) => true,
            _ => false,
        },
{
}

/// In normal mode frames and bus errors can come at any time, commands as long as no frame waits for
/// a mailbox, however many are in flight. A frame that waits can go into any of the three mailboxes
/// that holds no other frame. A frame can leave the controller if there is one in flight.
pub proof fn law_normal_mode_takes_what_comes(
    flying: Seq<InFlight>,
    waiting: Option<TxRequest>,
    event: CanEvent,
)
    ensures
        commands_taken(CanStateView::Normal { in_flight: flying, waiting }) <==> waiting is None,
        event_allowed(CanStateView::Normal { in_flight: flying, waiting }, event) <==> match event {
            CanEvent::Command(_) => waiting is None,
            CanEvent::Frame(_) => true,
            CanEvent::BusError => true,
            CanEvent::TxFree { mailbox } => waiting is Some && mailbox < 3 && !flying.map_values(
                |frame: InFlight| frame.mailbox,
            ).contains(mailbox),
            CanEvent::TxDone { .. } => flying.len() > 0,
            CanEvent::Halted => false,
        },
{
    if let CanEvent::TxFree { mailbox } = event {
        law_frames_in_flight_are_those_of_the_state(flying, waiting, mailbox);
    }
}

/// During a reset the frames in flight can leave the controller, and once there is none the
/// controller has halted. Nothing else happens.
pub proof fn law_reset_waits_for_the_frames_in_flight(flying: Seq<InFlight>, event: CanEvent)
    ensures
        !commands_taken(CanStateView::Resetting { in_flight: flying }),
        event_allowed(CanStateView::Resetting { in_flight: flying }, event) <==> match event {
            CanEvent::TxDone { .. } => flying.len() > 0,
            CanEvent::Halted => flying.len() == 0,
            _ => false,
        },
{
}

/// The controller is started, halted, configured or taken into configuration mode only by the
/// command that asks for it: started by a start in configuration mode, halted by a reset in normal
/// mode with frames in flight, taken into configuration mode by a reset with none in flight or once
/// it has halted, and configured by a bit timing in configuration mode.
pub proof fn law_controller_is_switched_on_command_only(
    channel: u8,
    state: CanStateView,
    event: CanEvent,
)
    requires
        event_allowed(state, event),
    ensures
        ({
            let action = bridge_step(channel, state, event).1;
            let start = event == CanEvent::Command(UsbCommand::Start);
            let reset = event == CanEvent::Command(UsbCommand::Reset);
            &&& action is Start <==> start && state is Configurable
            &&& action is Halt <==> reset && state is Normal && state->Normal_in_flight.len() > 0
            &&& action is IntoConfigMode <==> event is Halted || (reset && state is Normal
                && state->Normal_in_flight.len() == 0)
            &&& action is Configure <==> state is Configurable
                && event matches CanEvent::Command(UsbCommand::SetNominalBitTiming(_))
        }),
{
}

/// A frame that the host asks to transmit in normal mode is taken, whatever is in flight, and waits
/// for a mailbox; the frames in flight stay where they are. Only such a command makes the channel
/// wait.
pub proof fn law_asked_frame_is_taken(
    channel: u8,
    flying: Seq<InFlight>,
    frame: Frame,
    echo_id: u32,
    state: CanStateView,
    event: CanEvent,
)
    requires
        event_allowed(state, event),
    ensures
        bridge_step(
            channel,
            CanStateView::Normal { in_flight: flying, waiting: None },
            CanEvent::Command(UsbCommand::TxFrame { frame, echo_id }),
        ) == (
            CanStateView::Normal {
                in_flight: flying,
                waiting: Some(TxRequest { frame, echo_id }),
            },
            CanAction::AwaitMailbox,
        ),
        bridge_step(channel, state, event).1 is AwaitMailbox <==> state is Normal
            && event matches CanEvent::Command(UsbCommand::TxFrame { .. }),
{
}

/// The frame that waits is handed to the controller when a mailbox is free, and only then. It is the
/// newest in flight, in that mailbox and under its own echo ID; nothing waits any more, and the other
/// frames in flight stay where they are.
pub proof fn law_waiting_frame_goes_into_the_free_mailbox(
    channel: u8,
    state: CanStateView,
    event: CanEvent,
)
    requires
        event_allowed(state, event),
    ensures
        bridge_step(channel, state, event).1 is Transmit <==> event is TxFree,
        event matches CanEvent::TxFree { mailbox } ==> {
            let step = bridge_step(channel, state, event);
            &&& state matches CanStateView::Normal { in_flight: flying, waiting: Some(request) }
            &&& step.1 == CanAction::Transmit(request)
            &&& step.0 matches CanStateView::Normal { in_flight: now_flying, waiting: None }
            &&& now_flying.len() == flying.len() + 1
            &&& now_flying.last().mailbox == mailbox
            &&& now_flying.last().echo_id == request.echo_id
            &&& forall|i: int|
                0 <= i < flying.len() ==> (#[trigger] now_flying[i]) == flying[i]
        },
{
}

/// When a frame has left the controller, it is the oldest one that is reported, with its own echo ID:
/// to the host if it was transmitted, as an error if not. It is in flight no more; the others stay
/// where they are, and so does a frame that waits.
pub proof fn law_oldest_frame_is_reported(
    channel: u8,
    flying: Seq<InFlight>,
    waiting: Option<TxRequest>,
    transmitted: bool,
)
    requires
        flying.len() > 0,
    ensures
        ({
            let normal = CanStateView::Normal { in_flight: flying, waiting };
            let step = bridge_step(channel, normal, CanEvent::TxDone { transmitted });
            &&& step.0 matches CanStateView::Normal {
                in_flight: now_flying,
                waiting: now_waiting,
            }
            &&& now_waiting == waiting
            &&& seq![flying[0]] + now_flying == flying
            &&& transmitted ==> step.1 == CanAction::Respond(
                UsbResponse::EchoId { channel, echo_id: flying[0].echo_id },
            )
            &&& !transmitted ==> step.1 == CanAction::TxError { echo_id: flying[0].echo_id }
        }),
        ({
            let resetting = CanStateView::Resetting { in_flight: flying };
            let step = bridge_step(channel, resetting, CanEvent::TxDone { transmitted });
            &&& step.0 matches CanStateView::Resetting { in_flight: now_flying }
            &&& seq![flying[0]] + now_flying == flying
            &&& transmitted ==> step.1 == CanAction::Respond(
                UsbResponse::EchoId { channel, echo_id: flying[0].echo_id },
            )
            &&& !transmitted ==> step.1 == CanAction::TxError { echo_id: flying[0].echo_id }
        }),
{
    assert(seq![flying[0]] + flying.drop_first() =~= flying);
}

/// What goes to the host is a frame from the bus, or the acknowledgement of a frame that was
/// transmitted, under the number of the channel, and nothing else. A bus error is reported as one,
/// and so is a frame that was not transmitted, and nothing else is. What comes from the bus does not
/// change the state.
pub proof fn law_host_hears_of_the_bus_only(channel: u8, state: CanStateView, event: CanEvent)
    requires
        event_allowed(state, event),
    ensures
        ({
            let step = bridge_step(channel, state, event);
            &&& step.1 is Respond <==> event is Frame || event == (CanEvent::TxDone {
                transmitted: true,
            })
            &&& step.1 matches CanAction::Respond(UsbResponse::RxFrame { channel: from, frame })
                ==> from == channel && event == CanEvent::Frame(frame)
            &&& step.1 matches CanAction::Respond(UsbResponse::EchoId { channel: from, .. })
                ==> from == channel && event is TxDone
            &&& step.1 is RxError <==> event is BusError
            &&& step.1 is TxError <==> event == (CanEvent::TxDone { transmitted: false })
            &&& event is Frame || event is BusError ==> step.0 == state
        }),
{
}

/// A command is reported as unknown if it has no meaning in the present state, and only then. It is
/// reported as it came, and changes nothing.
pub proof fn law_unknown_commands_are_reported(channel: u8, state: CanStateView, event: CanEvent)
    requires
        event_allowed(state, event),
    ensures
        ({
            let step = bridge_step(channel, state, event);
            &&& step.1 is UnknownCommand <==> (event matches CanEvent::Command(command) && match (
                command
            ) {
                UsbCommand::Reset => state is Configurable,
                UsbCommand::TxFrame { .. } => state is Configurable,
                UsbCommand::Start => state is Normal,
                UsbCommand::SetNominalBitTiming(_) => state is Normal,
            })
            &&& step.1 matches CanAction::UnknownCommand(command) ==> event == CanEvent::Command(
                command,
            ) && step.0 == state
        }),
{
}

/// A start leads into normal mode with nothing to transmit, a reset out of it with the same frames in
/// flight, and a halted controller into configuration mode. Setting the bit timing changes nothing
/// in the channel's state.
pub proof fn law_modes_follow_the_commands(
    channel: u8,
    flying: Seq<InFlight>,
    timing: BitTiming,
    state: CanStateView,
    event: CanEvent,
)
    requires
        event_allowed(state, event),
    ensures
        ({
            let started = bridge_step(
                channel,
                CanStateView::Configurable,
                CanEvent::Command(UsbCommand::Start),
            ).0;
            &&& started matches CanStateView::Normal { in_flight: now_flying, waiting: None }
            &&& now_flying.len() == 0
        }),
        bridge_step(
            channel,
            CanStateView::Normal { in_flight: flying, waiting: None },
            CanEvent::Command(UsbCommand::Reset),
        ).0 == if flying.len() == 0 {
            CanStateView::Configurable
        } else {
            CanStateView::Resetting { in_flight: flying }
        },
        bridge_step(
            channel,
            CanStateView::Configurable,
            CanEvent::Command(UsbCommand::SetNominalBitTiming(timing)),
        ).0 is Configurable,
        bridge_step(channel, state, event).0 is Configurable <==> (bridge_step(
            channel,
            state,
            event,
        ).1 is IntoConfigMode || (state is Configurable && event != CanEvent::Command(
            UsbCommand::Start,
        ))),
{
}

/// Frames are sent once, a channel that left the bus stays off it, and each parameter of the bit
/// timing differs from the one that was sent by a multiple of what the controller's field can count
/// to, so that it is the same wherever it fits.
pub proof fn law_settings_are_those_sent(channel: u8, timing: BitTiming)
    requires
        timing.usable(),
    ensures
        bridge_step(
            channel,
            CanStateView::Configurable,
            CanEvent::Command(UsbCommand::SetNominalBitTiming(timing)),
        ).1 matches CanAction::Configure(config) && {
            let sent = config.nominal_bit_timing;
            &&& config == config_for(timing)
            &&& !config.automatic_retransmit
            &&& !config.automatic_bus_off_recovery
            &&& (timing.brp - sent.prescaler) % 0x1_0000 == 0
            &&& (timing.prop_seg + timing.phase_seg1 - sent.seg1) % 0x100 == 0
            &&& (timing.phase_seg2 - sent.seg2) % 0x100 == 0
            &&& (timing.sjw - sent.sync_jump_width) % 0x100 == 0
            &&& sent.prescaler > 0 && sent.seg1 > 0 && sent.seg2 > 0 && sent.sync_jump_width > 0
        },
{
    lemma_remainder(timing.brp as int, 0x1_0000);
    lemma_remainder(timing.prop_seg + timing.phase_seg1, 0x100);
    lemma_remainder(timing.phase_seg2 as int, 0x100);
    lemma_remainder(timing.sjw as int, 0x100);
}

/// A number less its remainder is a multiple.
proof fn lemma_remainder(a: int, m: int)
    requires
        m > 0,
    ensures
        (a - a % m) % m == 0,
{
    vstd::arithmetic::div_mod::lemma_fundamental_div_mod(a, m);
    vstd::arithmetic::div_mod::lemma_mod_multiples_basic(a / m, m);
    assert(a - a % m == (a / m) * m) by (nonlinear_arith)
        requires
            a == m * (a / m) + a % m,
    ;
}

/// The controller can take a bit timing if its first two segments add up to a number of 32 bits, and
/// if no parameter is a multiple of what the controller's field can count to.
pub proof fn law_unusable_timings_leave_a_zero(timing: BitTiming)
    ensures
        timing.usable() <==> timing.prop_seg + timing.phase_seg1 < 0x1_0000_0000 && (
        timing.prop_seg + timing.phase_seg1) % 0x100 != 0 && timing.phase_seg2 % 0x100 != 0
            && timing.sjw % 0x100 != 0 && timing.brp % 0x1_0000 != 0,
{
}

/// The transceiver is on the bus in normal mode, whatever is in flight, and in standby otherwise.
pub proof fn law_transceiver_is_on_the_bus_in_normal_mode(
    flying: Seq<InFlight>,
    waiting: Option<TxRequest>,
)
    ensures
        !standby(CanStateView::Normal { in_flight: flying, waiting }),
        standby(CanStateView::Configurable),
        standby(CanStateView::Resetting { in_flight: flying }),
{
}

} // verus!
