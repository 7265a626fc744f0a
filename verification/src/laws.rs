//! What holds of the bridge as a whole.
use crate::bulk::{
    frame_of_transfer, host_frame_at, host_frame_bytes, host_frame_of_response, id_of_word,
    transfer_allowed, word_of_id, HostFrame, BULK_MAX_PACKET_SIZE, ECHO_ID_RX,
    HOST_FRAME_HDR_SIZE,
};
use crate::bytes::{law_u32_bytes_read_back, law_u32_read_rebuilds};
use crate::can::{
    bridge_step, commands_taken, config_for, event_allowed, idle, in_flight, mailboxes_distinct,
    outcome, standby, CanAction, CanConfig, CanEvent, CanStateView, InFlight, TxRequest,
    MAILBOXES,
};
use crate::control::{
    bittiming_at, bt_const_reply, device_config_reply, mode_at, BtConst, DeviceConfig,
    GsUsbControlHandler, InResponse, OutReply, OutResponse, Request, CONTROL_BUF_SIZE,
    GS_CAN_MODE_START, GS_USB_BREQ_BITTIMING, GS_USB_BREQ_BT_CONST, GS_USB_BREQ_DEVICE_CONFIG,
    GS_USB_BREQ_HOST_FORMAT, GS_USB_BREQ_MODE,
};
use crate::frame::{Frame, IdView};
use crate::messages::{BitTiming, UsbCommand, UsbResponse, INTERFACES};
use vstd::prelude::*;

verus! {

/// A host frame is read back from its bytes, whatever comes behind them.
pub proof fn law_host_frame_reads_back(h: HostFrame, rest: Seq<u8>)
    requires
        h.data.len() == h.can_dlc,
    ensures
        host_frame_bytes(h).len() == HOST_FRAME_HDR_SIZE + h.can_dlc,
        host_frame_at(host_frame_bytes(h) + rest) == h,
{
    let b = host_frame_bytes(h) + rest;
    law_u32_bytes_read_back(h.echo_id);
    law_u32_bytes_read_back(h.can_id);
    assert(host_frame_at(b) =~= h);
}

/// The bytes of the host frame that was read are the bytes it was read from.
pub proof fn law_host_frame_rebuilds(b: Seq<u8>)
    requires
        b.len() >= HOST_FRAME_HDR_SIZE,
        b.len() >= HOST_FRAME_HDR_SIZE + host_frame_at(b).can_dlc,
    ensures
        host_frame_bytes(host_frame_at(b)) == b.subrange(
            0,
            HOST_FRAME_HDR_SIZE + host_frame_at(b).can_dlc,
        ),
{
    law_u32_read_rebuilds(b, 0);
    law_u32_read_rebuilds(b, 4);
    assert(host_frame_bytes(host_frame_at(b)) =~= b.subrange(
        0,
        HOST_FRAME_HDR_SIZE + host_frame_at(b).can_dlc,
    ));
}

/// An identifier is read back from its CAN ID word.
pub proof fn law_id_reads_back(id: IdView)
    requires
        id.valid(),
    ensures
        id_of_word(word_of_id(id)) == id,
{
}

/// A received frame, as it was sent to USB, reads back as the same frame for the same channel, with
/// the echo ID of a received frame.
pub proof fn law_received_frame_reads_back(channel: u8, frame: Frame, rest: Seq<u8>)
    requires
        frame@.valid(),
        channel < INTERFACES,
    ensures
        ({
            let b = host_frame_bytes(
                host_frame_of_response(UsbResponse::RxFrame { channel, frame }),
            ) + rest;
            &&& transfer_allowed(b)
            &&& frame_of_transfer(b) == frame@
            &&& host_frame_at(b).channel == channel
            &&& host_frame_at(b).echo_id == ECHO_ID_RX
        }),
{
    law_host_frame_reads_back(
        host_frame_of_response(UsbResponse::RxFrame { channel, frame }),
        rest,
    );
    law_id_reads_back(frame@.id);
}

/// A frame from USB that is received from the bus again goes to USB with the bytes it came in, but
/// for the echo ID and the flags, provided its CAN ID word holds the identifier and nothing else.
pub proof fn law_transmitted_frame_comes_back(b: Seq<u8>, frame: Frame)
    requires
        transfer_allowed(b),
        frame@ == frame_of_transfer(b),
        host_frame_at(b).can_id == word_of_id(id_of_word(host_frame_at(b).can_id)),
    ensures
        ({
            let sent = host_frame_at(b);
            let back = host_frame_of_response(
                UsbResponse::RxFrame { channel: sent.channel, frame },
            );
            back == (HostFrame { echo_id: ECHO_ID_RX, flags: 0, reserved: 0, ..sent })
        }),
{
}

/// Bytes behind the announced data do not matter.
pub proof fn law_transfer_tail_is_ignored(b: Seq<u8>, rest: Seq<u8>)
    requires
        transfer_allowed(b),
    ensures
        transfer_allowed(b + rest),
        frame_of_transfer(b + rest) == frame_of_transfer(b),
        host_frame_at(b + rest) == host_frame_at(b),
{
    assert(host_frame_at(b + rest) =~= host_frame_at(b));
}

/// In normal mode, a frame from USB is handed to the controller as soon as it has a free mailbox.
/// Once it was transmitted, it is acknowledged by a header that repeats its echo ID and its channel,
/// byte for byte, with zeros everywhere else. A frame that was not transmitted is answered with
/// nothing.
pub proof fn law_transmission_is_acknowledged(
    b: Seq<u8>,
    frame: Frame,
    mailbox: usize,
    transmitted: bool,
)
    requires
        transfer_allowed(b),
        frame@ == frame_of_transfer(b),
        mailbox < MAILBOXES,
    ensures
        ({
            let channel = host_frame_at(b).channel;
            let echo_id = host_frame_at(b).echo_id;
            let acknowledgement = UsbResponse::EchoId { channel, echo_id };
            let reply = host_frame_bytes(host_frame_of_response(acknowledgement));
            let events = seq![
                CanEvent::Command(UsbCommand::TxFrame { frame, echo_id }),
                CanEvent::TxFree { mailbox },
                CanEvent::TxDone { transmitted },
            ];
            let done = run(channel, idle(), events);
            &&& run_allowed(channel, idle(), events)
            &&& done.0 == idle()
            &&& transmissions(done.1) == seq![TxRequest { frame, echo_id }]
            &&& responses(done.1) == if transmitted {
                seq![acknowledgement]
            } else {
                Seq::empty()
            }
            &&& reply == b.subrange(0, 4) + seq![0u8, 0, 0, 0, 0, b[9], 0, 0]
        }),
{
    law_u32_read_rebuilds(b, 0);
    let channel = host_frame_at(b).channel;
    let echo_id = host_frame_at(b).echo_id;
    assert(host_frame_bytes(host_frame_of_response(UsbResponse::EchoId { channel, echo_id }))
        =~= b.subrange(0, 4) + seq![0u8, 0, 0, 0, 0, b[9], 0, 0]);
    let ask = CanEvent::Command(UsbCommand::TxFrame { frame, echo_id });
    let free = CanEvent::TxFree { mailbox };
    let done = CanEvent::TxDone { transmitted };
    lemma_run_of_three(channel, idle(), ask, free, done);
    let actions = run(channel, idle(), seq![ask, free, done]).1;
    assert(run(channel, idle(), seq![ask, free, done]).0->Normal_in_flight =~= Seq::empty());
    assert(actions.drop_last() =~= seq![actions[0], actions[1]]);
    assert(actions.drop_last().drop_last() =~= seq![actions[0]]);
    assert(actions.drop_last().drop_last().drop_last() =~= Seq::empty());
    reveal_with_fuel(transmissions, 4);
    reveal_with_fuel(responses, 4);
}

/// In normal mode, a frame from the bus goes to USB under the number of the channel that received
/// it, whatever is being transmitted.
pub proof fn law_reception_is_forwarded(channel: u8, state: CanStateView, frame: Frame)
    requires
        state is Normal,
    ensures
        event_allowed(state, CanEvent::Frame(frame)),
        bridge_step(channel, state, CanEvent::Frame(frame)) == (
            state,
            CanAction::Respond(UsbResponse::RxFrame { channel, frame }),
        ),
        host_frame_of_response(UsbResponse::RxFrame { channel, frame }).channel == channel,
        host_frame_of_response(UsbResponse::RxFrame { channel, frame }).echo_id == ECHO_ID_RX,
{
}

/// Every response fits one USB packet, and leaves it short, so that the packet ends the transfer.
pub proof fn law_response_fits_packet(response: UsbResponse)
    requires
        response matches UsbResponse::RxFrame { frame, .. } ==> frame@.valid(),
    ensures
        host_frame_bytes(host_frame_of_response(response)).len() < BULK_MAX_PACKET_SIZE,
{
}

/// `a` acknowledges a frame that the host sent under the echo ID of received frames, and `b` is a
/// received frame of the same channel with the standard identifier zero and no data.
pub open spec fn alike(a: UsbResponse, b: UsbResponse) -> bool {
    &&& a matches UsbResponse::EchoId { channel, echo_id }
    &&& b matches UsbResponse::RxFrame { channel: rx_channel, frame }
    &&& channel == rx_channel
    &&& echo_id == ECHO_ID_RX
    &&& frame@.id == IdView::Standard(0)
    &&& frame@.data.len() == 0
}

/// The host tells responses apart by their bytes. The one exception is an acknowledgement under the
/// echo ID of received frames, which looks like an empty frame.
pub proof fn law_responses_are_distinct(a: UsbResponse, b: UsbResponse)
    requires
        a matches UsbResponse::RxFrame { frame, .. } ==> frame@.valid(),
        b matches UsbResponse::RxFrame { frame, .. } ==> frame@.valid(),
        !alike(a, b),
        !alike(b, a),
        host_frame_bytes(host_frame_of_response(a)) == host_frame_bytes(host_frame_of_response(b)),
    ensures
        match (a, b) {
            (
                UsbResponse::EchoId { channel, echo_id },
                UsbResponse::EchoId { channel: channel_b, echo_id: echo_id_b },
            ) => channel == channel_b && echo_id == echo_id_b,
            (
                UsbResponse::RxFrame { channel, frame },
                UsbResponse::RxFrame { channel: channel_b, frame: frame_b },
            ) => channel == channel_b && frame@ == frame_b@,
            _ => false,
        },
{
    law_host_frame_reads_back(host_frame_of_response(a), Seq::empty());
    law_host_frame_reads_back(host_frame_of_response(b), Seq::empty());
    if let UsbResponse::RxFrame { frame, .. } = a {
        law_id_reads_back(frame@.id);
    }
    if let UsbResponse::RxFrame { frame, .. } = b {
        law_id_reads_back(frame@.id);
    }
}

/// `timing` is within the limits that the host was told. Only an upper limit is told of the
/// synchronization jump width.
pub open spec fn within_limits(timing: BitTiming, limits: BtConst) -> bool {
    &&& limits.tseg1_min <= timing.prop_seg + timing.phase_seg1 <= limits.tseg1_max
    &&& limits.tseg2_min <= timing.phase_seg2 <= limits.tseg2_max
    &&& timing.sjw <= limits.sjw_max
    &&& limits.brp_min <= timing.brp <= limits.brp_max
}

/// A bit timing within the limits that the host was told reaches the controller unchanged, unless
/// the segments before the sample point take all 256 quanta or the jump width is zero.
pub proof fn law_advertised_timing_is_kept(timing: BitTiming, before: BtConst)
    requires
        within_limits(timing, bt_const_reply(before)),
        timing.prop_seg + timing.phase_seg1 != 256,
        timing.sjw != 0,
    ensures
        timing.usable(),
        timing.nominal().prescaler == timing.brp,
        timing.nominal().seg1 == timing.prop_seg + timing.phase_seg1,
        timing.nominal().seg2 == timing.phase_seg2,
        timing.nominal().sync_jump_width == timing.sjw,
{
}

/// Of the bit timings within the limits that the host was told, with a jump width that is not zero,
/// the controller can take all but those whose segments before the sample point take all 256
/// quanta.
pub proof fn law_one_advertised_sum_is_unusable(timing: BitTiming, before: BtConst)
    requires
        within_limits(timing, bt_const_reply(before)),
        timing.sjw != 0,
    ensures
        timing.usable() <==> timing.prop_seg + timing.phase_seg1 != 256,
{
}

/// A request that is not for the handler gets no answer and has no effect, whatever its data.
pub proof fn law_foreign_request_is_left_alone(
    handler: GsUsbControlHandler,
    req: Request,
    buf: Seq<u8>,
)
    requires
        !handler.addressed(req),
    ensures
        handler.out_allowed(req, buf),
        handler.out_reply(req, buf) is None,
        handler.in_allowed(req, buf.len()),
        handler.in_response(req) is None,
{
}

/// A request with an unknown code is rejected and queues nothing.
pub proof fn law_unknown_request_is_rejected(
    handler: GsUsbControlHandler,
    req: Request,
    buf: Seq<u8>,
)
    requires
        handler.addressed(req),
    ensures
        req.request != GS_USB_BREQ_HOST_FORMAT && req.request != GS_USB_BREQ_BITTIMING
            && req.request != GS_USB_BREQ_MODE ==> handler.out_reply(req, buf) == Some(
            OutReply { response: OutResponse::Rejected, command: None },
        ),
        req.request != GS_USB_BREQ_DEVICE_CONFIG && req.request != GS_USB_BREQ_BT_CONST
            ==> handler.in_response(req) == Some(InResponse::Rejected),
{
}

/// A request queues a command only for an existing channel, the one that it names, and only if it
/// is accepted.
pub proof fn law_command_goes_to_named_channel(
    handler: GsUsbControlHandler,
    req: Request,
    buf: Seq<u8>,
)
    requires
        handler.out_allowed(req, buf),
    ensures
        handler.out_reply(req, buf) matches Some(reply) ==> (reply.command matches Some(queued)
            ==> queued.channel == req.value && queued.channel < INTERFACES
            && reply.response is Accepted),
{
}

/// Every reply to a control IN request fits the control buffer.
pub proof fn law_reply_fits_control_buffer(handler: GsUsbControlHandler, req: Request)
    ensures
        handler.in_allowed(req, CONTROL_BUF_SIZE as nat),
        handler.in_response(req) matches Some(InResponse::Accepted { len }) ==> len
            <= CONTROL_BUF_SIZE,
{
}

/// A bit timing that the host sends is the one that a channel in configuration mode sets.
pub proof fn law_sent_timing_is_set(handler: GsUsbControlHandler, req: Request, buf: Seq<u8>)
    requires
        handler.out_allowed(req, buf),
        handler.addressed(req),
        req.request == GS_USB_BREQ_BITTIMING,
    ensures
        handler.out_reply(req, buf) matches Some(reply) && reply.command matches Some(queued)
            && forall|channel: u8| #[trigger]
            bridge_step(channel, CanStateView::Configurable, CanEvent::Command(queued.command)) == (
            CanStateView::Configurable,
            CanAction::Configure(config_for(bittiming_at(buf))),
        ),
{
}

/// A mode that the host sends is the one that a channel goes into, whichever it is in.
pub proof fn law_sent_mode_is_taken(
    handler: GsUsbControlHandler,
    req: Request,
    buf: Seq<u8>,
    channel: u8,
    state: CanStateView,
)
    requires
        handler.out_allowed(req, buf),
        handler.addressed(req),
        req.request == GS_USB_BREQ_MODE,
        commands_taken(state),
    ensures
        handler.out_reply(req, buf) matches Some(reply) && reply.command matches Some(queued)
            && event_allowed(state, CanEvent::Command(queued.command)) && (bridge_step(
            channel,
            state,
            CanEvent::Command(queued.command),
        ).0 is Normal <==> mode_at(buf) == GS_CAN_MODE_START),
{
}

/// The channels that the host is told of are the ones that exist.
pub proof fn law_advertised_channels_exist(before: DeviceConfig, channel: u8)
    ensures
        channel <= device_config_reply(before).icount <==> channel < INTERFACES,
{
}

/// A command that has no meaning in the present state changes nothing. In configuration mode these
/// are the commands to reset and to transmit, in normal mode those to start and to set the timing.
pub proof fn law_unknown_command_changes_nothing(
    channel: u8,
    state: CanStateView,
    command: UsbCommand,
)
    requires
        commands_taken(state),
    ensures
        (bridge_step(channel, state, CanEvent::Command(command)).1 is UnknownCommand) <==> if state
            is Configurable {
            command is Reset || command is TxFrame
        } else {
            command is Start || command is SetNominalBitTiming
        },
        bridge_step(channel, state, CanEvent::Command(command)).1 is UnknownCommand ==> bridge_step(
            channel,
            state,
            CanEvent::Command(command),
        ) == (state, CanAction::UnknownCommand(command)),
{
}

/// In configuration mode a channel writes nothing to the bus and sends nothing to USB.
pub proof fn law_configuration_mode_is_silent(channel: u8, event: CanEvent)
    requires
        event_allowed(CanStateView::Configurable, event),
    ensures
        !(bridge_step(channel, CanStateView::Configurable, event).1 is Transmit),
        !(bridge_step(channel, CanStateView::Configurable, event).1 is Respond),
{
}

/// The state that a channel is in after `events`, and what it did about them.
pub open spec fn run(channel: u8, state: CanStateView, events: Seq<CanEvent>) -> (
    CanStateView,
    Seq<CanAction>,
)
    decreases events.len(),
{
    if events.len() == 0 {
        (state, Seq::empty())
    } else {
        let before = run(channel, state, events.drop_last());
        let step = bridge_step(channel, before.0, events.last());
        (step.0, before.1.push(step.1))
    }
}

/// Each of `events` can happen in the state that the ones before it lead to.
pub open spec fn run_allowed(channel: u8, state: CanStateView, events: Seq<CanEvent>) -> bool
    decreases events.len(),
{
    events.len() > 0 ==> {
        &&& run_allowed(channel, state, events.drop_last())
        &&& event_allowed(run(channel, state, events.drop_last()).0, events.last())
    }
}

/// A run of three events, step by step.
proof fn lemma_run_of_three(channel: u8, state: CanStateView, a: CanEvent, b: CanEvent, c: CanEvent)
    ensures
        ({
            let first = bridge_step(channel, state, a);
            let second = bridge_step(channel, first.0, b);
            let third = bridge_step(channel, second.0, c);
            &&& run(channel, state, seq![a, b]).0 == second.0
            &&& run(channel, state, seq![a, b, c]) == (third.0, seq![first.1, second.1, third.1])
            &&& run_allowed(channel, state, seq![a, b, c]) <==> event_allowed(state, a)
                && event_allowed(first.0, b) && event_allowed(second.0, c)
        }),
{
    assert(seq![a, b, c].drop_last() =~= seq![a, b]);
    assert(seq![a, b].drop_last() =~= seq![a]);
    assert(seq![a].drop_last() =~= Seq::<CanEvent>::empty());
    reveal_with_fuel(run, 4);
    reveal_with_fuel(run_allowed, 4);
    let first = bridge_step(channel, state, a);
    let second = bridge_step(channel, first.0, b);
    let third = bridge_step(channel, second.0, c);
    assert(run(channel, state, seq![a, b, c]).1 =~= seq![first.1, second.1, third.1]);
}

/// The last start or reset among `events` is a start; if there is none, `state` is normal mode.
pub open spec fn started(state: CanStateView, events: Seq<CanEvent>) -> bool
    decreases events.len(),
{
    if events.len() == 0 {
        state is Normal
    } else {
        match events.last() {
            CanEvent::Command(UsbCommand::Start) => true,
            CanEvent::Command(UsbCommand::Reset) => false,
            _ => started(state, events.drop_last()),
        }
    }
}

/// A channel is in normal mode if the last start or reset is a start. Otherwise it is in
/// configuration mode, or on the way there.
pub proof fn law_mode_is_the_last_asked_for(
    channel: u8,
    state: CanStateView,
    events: Seq<CanEvent>,
)
    requires
        run_allowed(channel, state, events),
    ensures
        run(channel, state, events).0 is Normal <==> started(state, events),
    decreases events.len(),
{
    if events.len() > 0 {
        law_mode_is_the_last_asked_for(channel, state, events.drop_last());
    }
}

/// The transceiver is in standby from a reset, or from the beginning, until the next start, and on
/// the bus from a start until the next reset.
pub proof fn law_standby_follows_the_mode(channel: u8, state: CanStateView, events: Seq<CanEvent>)
    requires
        run_allowed(channel, state, events),
    ensures
        standby(run(channel, state, events).0) <==> !started(state, events),
{
    law_mode_is_the_last_asked_for(channel, state, events);
}

/// The frames in flight are always in different mailboxes, so that a mailbox tells of one frame
/// only.
pub proof fn law_mailboxes_stay_distinct(channel: u8, state: CanStateView, events: Seq<CanEvent>)
    requires
        run_allowed(channel, state, events),
        mailboxes_distinct(in_flight(state)),
    ensures
        mailboxes_distinct(in_flight(run(channel, state, events).0)),
    decreases events.len(),
{
    if events.len() > 0 {
        law_mailboxes_stay_distinct(channel, state, events.drop_last());
        let before = in_flight(run(channel, state, events.drop_last()).0);
        if events.last() is TxDone {
            assert forall|i: int| 0 <= i < before.drop_first().len() implies (
            #[trigger] before.drop_first()[i]) == before[i + 1] by {}
        }
    }
}

/// The frames that `actions` hand to the controller, in order.
pub open spec fn transmissions(actions: Seq<CanAction>) -> Seq<TxRequest>
    decreases actions.len(),
{
    if actions.len() == 0 {
        Seq::empty()
    } else {
        match actions.last() {
            CanAction::Transmit(request) => transmissions(actions.drop_last()).push(request),
            _ => transmissions(actions.drop_last()),
        }
    }
}

/// The frames that `events` ask to transmit in normal mode, in order.
pub open spec fn asked_to_transmit(state: CanStateView, events: Seq<CanEvent>) -> Seq<TxRequest>
    decreases events.len(),
{
    if events.len() == 0 {
        Seq::empty()
    } else {
        let before = asked_to_transmit(state, events.drop_last());
        match events.last() {
            CanEvent::Command(UsbCommand::TxFrame { frame, echo_id }) if started(
                state,
                events.drop_last(),
            ) => before.push(TxRequest { frame, echo_id }),
            _ => before,
        }
    }
}

/// The frame that waits for a mailbox, if there is one.
pub open spec fn waiting(state: CanStateView) -> Seq<TxRequest> {
    match state {
        CanStateView::Normal { waiting: Some(request), .. } => seq![request],
        _ => Seq::empty(),
    }
}

/// A channel hands to the controller the frames that it is asked to transmit in normal mode, in
/// order, each of them once, and no others. Only the last one may still wait for a mailbox.
pub proof fn law_bus_gets_what_was_asked(channel: u8, state: CanStateView, events: Seq<CanEvent>)
    requires
        run_allowed(channel, state, events),
    ensures
        waiting(state) + asked_to_transmit(state, events) == transmissions(
            run(channel, state, events).1,
        ) + waiting(run(channel, state, events).0),
    decreases events.len(),
{
    if events.len() > 0 {
        let before = run(channel, state, events.drop_last());
        let step = bridge_step(channel, before.0, events.last());
        law_bus_gets_what_was_asked(channel, state, events.drop_last());
        law_mode_is_the_last_asked_for(channel, state, events.drop_last());
        assert(before.1.push(step.1).drop_last() =~= before.1);
        assert(waiting(state) + asked_to_transmit(state, events) =~= transmissions(
            run(channel, state, events).1,
        ) + waiting(run(channel, state, events).0));
    } else {
        assert(waiting(state) + asked_to_transmit(state, events) =~= waiting(state));
        assert(transmissions(run(channel, state, events).1) + waiting(state) =~= waiting(state));
    }
}

/// The echo IDs of the frames that `requests` ask to transmit.
pub open spec fn ids(requests: Seq<TxRequest>) -> Seq<u32> {
    requests.map_values(|request: TxRequest| request.echo_id)
}

/// The echo IDs of the frames in flight, from the oldest to the newest.
pub open spec fn ids_in_flight(state: CanStateView) -> Seq<u32> {
    in_flight(state).map_values(|frame: InFlight| frame.echo_id)
}

/// The echo IDs of the frames whose end is still to be reported, in the order in which they were
/// asked for: those in flight, and the one that waits for a mailbox.
pub open spec fn outstanding(state: CanStateView) -> Seq<u32> {
    ids_in_flight(state) + ids(waiting(state))
}

/// The echo IDs of the frames whose end `actions` report, in order, and whether it was a success.
pub open spec fn reported(actions: Seq<CanAction>) -> Seq<(u32, bool)>
    decreases actions.len(),
{
    if actions.len() == 0 {
        Seq::empty()
    } else {
        let before = reported(actions.drop_last());
        match actions.last() {
            CanAction::Respond(UsbResponse::EchoId { echo_id, .. }) => before.push((echo_id, true)),
            CanAction::TxError { echo_id } => before.push((echo_id, false)),
            _ => before,
        }
    }
}

/// The echo IDs of the frames whose end `actions` report, in order.
pub open spec fn reported_ids(actions: Seq<CanAction>) -> Seq<u32> {
    reported(actions).map_values(|report: (u32, bool)| report.0)
}

/// What became of the frames whose end `actions` report, in order.
pub open spec fn reported_outcomes(actions: Seq<CanAction>) -> Seq<bool> {
    reported(actions).map_values(|report: (u32, bool)| report.1)
}

/// What became of the frames that `events` tell the end of, in order.
pub open spec fn outcomes(events: Seq<CanEvent>) -> Seq<bool>
    decreases events.len(),
{
    if events.len() == 0 {
        Seq::empty()
    } else {
        match events.last() {
            CanEvent::TxDone { transmitted } => outcomes(events.drop_last()).push(transmitted),
            _ => outcomes(events.drop_last()),
        }
    }
}

/// Every frame that a channel is asked to transmit in normal mode is reported exactly once, in the
/// order of the commands, or is outstanding. What is reported of a frame is what became of that
/// frame.
pub proof fn law_every_frame_is_accounted_for(
    channel: u8,
    state: CanStateView,
    events: Seq<CanEvent>,
)
    requires
        run_allowed(channel, state, events),
    ensures
        ({
            let done = run(channel, state, events);
            let asked = outstanding(state) + ids(asked_to_transmit(state, events));
            &&& asked == reported_ids(done.1) + outstanding(done.0)
            &&& outcomes(events) == reported_outcomes(done.1)
        }),
    decreases events.len(),
{
    let done = run(channel, state, events);
    let asked = outstanding(state) + ids(asked_to_transmit(state, events));
    if events.len() > 0 {
        let earlier = events.drop_last();
        let before = run(channel, state, earlier);
        let step = bridge_step(channel, before.0, events.last());
        let asked_before = outstanding(state) + ids(asked_to_transmit(state, earlier));
        law_every_frame_is_accounted_for(channel, state, earlier);
        law_mode_is_the_last_asked_for(channel, state, earlier);
        assert(before.1.push(step.1).drop_last() =~= before.1);
        match events.last() {
            CanEvent::Command(UsbCommand::TxFrame { echo_id, .. }) if started(state, earlier) => {
                assert(asked =~= asked_before.push(echo_id));
                assert(outstanding(done.0) =~= outstanding(before.0).push(echo_id));
            },
            CanEvent::TxDone { transmitted } => {
                let echo_id: u32 = ids_in_flight(before.0)[0];
                assert(outstanding(before.0) =~= seq![echo_id] + outstanding(done.0));
                assert(reported_ids(done.1) =~= reported_ids(before.1).push(echo_id));
                assert(reported_outcomes(done.1) =~= reported_outcomes(before.1).push(transmitted));
            },
            _ => {
                assert(outstanding(done.0) =~= outstanding(before.0));
            },
        }
    }
    assert(asked =~= reported_ids(done.1) + outstanding(done.0));
    assert(outcomes(events) =~= reported_outcomes(done.1));
}

/// A frame is reported only after it was handed to the controller. What was handed over and is not
/// reported yet is in flight.
pub proof fn law_only_handed_frames_are_reported(
    channel: u8,
    state: CanStateView,
    events: Seq<CanEvent>,
)
    requires
        run_allowed(channel, state, events),
    ensures
        ({
            let done = run(channel, state, events);
            ids_in_flight(state) + ids(transmissions(done.1)) == reported_ids(done.1)
                + ids_in_flight(done.0)
        }),
    decreases events.len(),
{
    let done = run(channel, state, events);
    let handed = ids_in_flight(state) + ids(transmissions(done.1));
    if events.len() > 0 {
        let earlier = events.drop_last();
        let before = run(channel, state, earlier);
        let step = bridge_step(channel, before.0, events.last());
        let handed_before = ids_in_flight(state) + ids(transmissions(before.1));
        law_only_handed_frames_are_reported(channel, state, earlier);
        assert(before.1.push(step.1).drop_last() =~= before.1);
        match events.last() {
            CanEvent::TxFree { .. } => {
                let echo_id: u32 = waiting(before.0)[0].echo_id;
                assert(ids_in_flight(done.0) =~= ids_in_flight(before.0).push(echo_id));
                assert(handed =~= handed_before.push(echo_id));
            },
            CanEvent::TxDone { .. } => {
                let echo_id: u32 = ids_in_flight(before.0)[0];
                assert(ids_in_flight(before.0) =~= seq![echo_id] + ids_in_flight(done.0));
                assert(reported_ids(done.1) =~= reported_ids(before.1).push(echo_id));
            },
            _ => {
                assert(ids_in_flight(done.0) =~= ids_in_flight(before.0));
                assert(handed == handed_before);
            },
        }
    }
    assert(handed =~= reported_ids(done.1) + ids_in_flight(done.0));
}

/// What `actions` send to USB, in order.
pub open spec fn responses(actions: Seq<CanAction>) -> Seq<UsbResponse>
    decreases actions.len(),
{
    if actions.len() == 0 {
        Seq::empty()
    } else {
        match actions.last() {
            CanAction::Respond(response) => responses(actions.drop_last()).push(response),
            _ => responses(actions.drop_last()),
        }
    }
}

/// What the host is owed for `events`, in order: an acknowledgement for each frame that was
/// transmitted, and each frame that comes from the bus in normal mode. The ends of the transmissions
/// are told in the order in which they were asked for.
pub open spec fn owed(channel: u8, state: CanStateView, events: Seq<CanEvent>) -> Seq<UsbResponse>
    decreases events.len(),
{
    if events.len() == 0 {
        Seq::empty()
    } else {
        let earlier = events.drop_last();
        let before = owed(channel, state, earlier);
        let asked = outstanding(state) + ids(asked_to_transmit(state, earlier));
        match events.last() {
            CanEvent::TxDone { transmitted: true } => before.push(
                UsbResponse::EchoId { channel, echo_id: asked[outcomes(earlier).len() as int] },
            ),
            CanEvent::Frame(frame) if started(state, earlier) => before.push(
                UsbResponse::RxFrame { channel, frame },
            ),
            _ => before,
        }
    }
}

/// A channel sends to USB what the host is owed, in order, and nothing else.
pub proof fn law_host_gets_what_it_is_owed(channel: u8, state: CanStateView, events: Seq<CanEvent>)
    requires
        run_allowed(channel, state, events),
    ensures
        responses(run(channel, state, events).1) == owed(channel, state, events),
    decreases events.len(),
{
    if events.len() > 0 {
        let earlier = events.drop_last();
        let before = run(channel, state, earlier);
        let step = bridge_step(channel, before.0, events.last());
        law_host_gets_what_it_is_owed(channel, state, earlier);
        law_mode_is_the_last_asked_for(channel, state, earlier);
        law_every_frame_is_accounted_for(channel, state, earlier);
        assert(before.1.push(step.1).drop_last() =~= before.1);
        if events.last() is TxDone {
            let asked = outstanding(state) + ids(asked_to_transmit(state, earlier));
            assert(asked[outcomes(earlier).len() as int] == outstanding(before.0)[0]);
        }
    }
}

/// The echo IDs among `responses`, in order.
pub open spec fn echo_ids(responses: Seq<UsbResponse>) -> Seq<u32>
    decreases responses.len(),
{
    if responses.len() == 0 {
        Seq::empty()
    } else {
        match responses.last() {
            UsbResponse::EchoId { echo_id, .. } => echo_ids(responses.drop_last()).push(echo_id),
            UsbResponse::RxFrame { .. } => echo_ids(responses.drop_last()),
        }
    }
}

/// The frames among `responses`, in order.
pub open spec fn forwarded(responses: Seq<UsbResponse>) -> Seq<Frame>
    decreases responses.len(),
{
    if responses.len() == 0 {
        Seq::empty()
    } else {
        match responses.last() {
            UsbResponse::EchoId { .. } => forwarded(responses.drop_last()),
            UsbResponse::RxFrame { frame, .. } => forwarded(responses.drop_last()).push(frame),
        }
    }
}

/// The frames that come from the bus, in order.
pub open spec fn received(events: Seq<CanEvent>) -> Seq<Frame>
    decreases events.len(),
{
    if events.len() == 0 {
        Seq::empty()
    } else {
        match events.last() {
            CanEvent::Frame(frame) => received(events.drop_last()).push(frame),
            _ => received(events.drop_last()),
        }
    }
}

/// Those of `ids` at whose place `transmitted` holds, in order.
pub open spec fn successes(ids: Seq<u32>, transmitted: Seq<bool>) -> Seq<u32>
    decreases transmitted.len(),
{
    if transmitted.len() == 0 {
        Seq::empty()
    } else {
        let before = successes(ids, transmitted.drop_last());
        if transmitted.last() {
            before.push(ids[transmitted.len() - 1])
        } else {
            before
        }
    }
}

/// More IDs at the end do not change the successes among the first ones.
proof fn lemma_successes_of_more(ids: Seq<u32>, more: Seq<u32>, transmitted: Seq<bool>)
    requires
        transmitted.len() <= ids.len(),
    ensures
        successes(ids + more, transmitted) == successes(ids, transmitted),
    decreases transmitted.len(),
{
    if transmitted.len() > 0 {
        lemma_successes_of_more(ids, more, transmitted.drop_last());
    }
}

/// The echo IDs that a channel sends to USB are those of the frames that it was asked to transmit in
/// normal mode and that were transmitted, each of them once, in the order of the commands. The
/// frames that it sends to USB are those that came from the bus, in order.
pub proof fn law_echoes_are_the_successes(channel: u8, state: CanStateView, events: Seq<CanEvent>)
    requires
        run_allowed(channel, state, events),
    ensures
        ({
            let sent = responses(run(channel, state, events).1);
            let asked = outstanding(state) + ids(asked_to_transmit(state, events));
            &&& echo_ids(sent) == successes(asked, outcomes(events))
            &&& forwarded(sent) == received(events)
        }),
    decreases events.len(),
{
    if events.len() > 0 {
        let earlier = events.drop_last();
        let before = run(channel, state, earlier);
        let step = bridge_step(channel, before.0, events.last());
        let asked = outstanding(state) + ids(asked_to_transmit(state, earlier));
        law_echoes_are_the_successes(channel, state, earlier);
        law_mode_is_the_last_asked_for(channel, state, earlier);
        law_every_frame_is_accounted_for(channel, state, earlier);
        assert(before.1.push(step.1).drop_last() =~= before.1);
        let sent = responses(before.1);
        if let CanAction::Respond(response) = step.1 {
            assert(sent.push(response).drop_last() =~= sent);
        }
        match events.last() {
            CanEvent::Command(UsbCommand::TxFrame { echo_id, .. }) => {
                lemma_successes_of_more(asked, seq![echo_id], outcomes(earlier));
                assert(started(state, earlier) ==> asked + seq![echo_id] =~= outstanding(state)
                    + ids(asked_to_transmit(state, events)));
            },
            CanEvent::TxDone { transmitted } => {
                assert(asked[outcomes(earlier).len() as int] == outstanding(before.0)[0]);
                assert(outcomes(earlier).push(transmitted).drop_last() =~= outcomes(earlier));
            },
            _ => {},
        }
    }
}

/// The echo IDs of the frames that `actions` report as not transmitted, in order.
pub open spec fn failures(actions: Seq<CanAction>) -> Seq<u32>
    decreases actions.len(),
{
    if actions.len() == 0 {
        Seq::empty()
    } else {
        match actions.last() {
            CanAction::TxError { echo_id } => failures(actions.drop_last()).push(echo_id),
            _ => failures(actions.drop_last()),
        }
    }
}

/// How many times `id` occurs in `ids`.
pub open spec fn times(id: u32, ids: Seq<u32>) -> nat {
    ids.to_multiset().count(id)
}

/// Of each echo ID, the controller was handed as many frames as were acknowledged, plus those that
/// were reported as not transmitted, plus those that are still in flight.
pub proof fn law_each_echo_id_is_accounted_for(
    channel: u8,
    state: CanStateView,
    events: Seq<CanEvent>,
    id: u32,
)
    requires
        run_allowed(channel, state, events),
    ensures
        ({
            let done = run(channel, state, events);
            times(id, ids_in_flight(state)) + times(id, ids(transmissions(done.1))) == times(
                id,
                echo_ids(responses(done.1)),
            ) + times(id, failures(done.1)) + times(id, ids_in_flight(done.0))
        }),
    decreases events.len(),
{
    broadcast use vstd::seq_lib::group_to_multiset_ensures;

    let done = run(channel, state, events);
    if events.len() > 0 {
        let earlier = events.drop_last();
        let before = run(channel, state, earlier);
        let step = bridge_step(channel, before.0, events.last());
        law_each_echo_id_is_accounted_for(channel, state, earlier, id);
        law_mode_is_the_last_asked_for(channel, state, earlier);
        assert(before.1.push(step.1).drop_last() =~= before.1);
        if let CanAction::Respond(response) = step.1 {
            let sent = responses(before.1);
            assert(sent.push(response).drop_last() =~= sent);
        }
        match events.last() {
            CanEvent::TxFree { mailbox } => {
                let echo_id: u32 = waiting(before.0)[0].echo_id;
                assert(ids_in_flight(done.0) =~= ids_in_flight(before.0).push(echo_id));
                assert(ids(transmissions(done.1)) =~= ids(transmissions(before.1)).push(echo_id));
            },
            CanEvent::TxDone { .. } => {
                let echo_id: u32 = ids_in_flight(before.0)[0];
                assert(ids_in_flight(before.0) =~= seq![echo_id] + ids_in_flight(done.0));
                vstd::seq_lib::lemma_multiset_commutative(seq![echo_id], ids_in_flight(done.0));
                assert(seq![echo_id] =~= Seq::<u32>::empty().push(echo_id));
            },
            _ => {
                assert(ids_in_flight(before.0) =~= ids_in_flight(done.0));
            },
        }
    }
}

/// A reset with frames in flight halts the controller first. Then each of the frames is reported,
/// the transmitted ones with their echo IDs, and only then the channel is back in configuration
/// mode.
pub proof fn law_reset_loses_no_acknowledgement(
    channel: u8,
    in_flight: Seq<InFlight>,
    transmitted: Seq<bool>,
)
    requires
        in_flight.len() > 0,
        transmitted.len() == in_flight.len(),
    ensures
        ({
            let normal = CanStateView::Normal { in_flight, waiting: None };
            let resetting = CanStateView::Resetting { in_flight };
            let events = all_done(transmitted).push(CanEvent::Halted);
            &&& event_allowed(normal, CanEvent::Command(UsbCommand::Reset))
            &&& bridge_step(channel, normal, CanEvent::Command(UsbCommand::Reset)) == (
                resetting,
                CanAction::Halt,
            )
            &&& run_allowed(channel, resetting, events)
            &&& run(channel, resetting, events) == (
                CanStateView::Configurable,
                all_reported(channel, in_flight, transmitted).push(CanAction::IntoConfigMode),
            )
        }),
{
    let events = all_done(transmitted).push(CanEvent::Halted);
    lemma_frames_are_reported(channel, in_flight, transmitted);
    assert(events.drop_last() =~= all_done(transmitted));
    assert(in_flight.skip(transmitted.len() as int).len() == 0);
}

/// Frames that leave the controller one after the other.
pub open spec fn all_done(transmitted: Seq<bool>) -> Seq<CanEvent> {
    transmitted.map_values(|transmitted: bool| CanEvent::TxDone { transmitted })
}

/// The reports of what became of the first frames in flight.
pub open spec fn all_reported(
    channel: u8,
    in_flight: Seq<InFlight>,
    transmitted: Seq<bool>,
) -> Seq<CanAction> {
    Seq::new(
        transmitted.len(),
        |i: int| outcome(channel, in_flight[i].echo_id, transmitted[i]),
    )
}

/// On the way back to configuration mode, the frames in flight are reported from the oldest on.
proof fn lemma_frames_are_reported(channel: u8, in_flight: Seq<InFlight>, transmitted: Seq<bool>)
    requires
        transmitted.len() <= in_flight.len(),
    ensures
        run_allowed(channel, CanStateView::Resetting { in_flight }, all_done(transmitted)),
        run(channel, CanStateView::Resetting { in_flight }, all_done(transmitted)) == (
            CanStateView::Resetting { in_flight: in_flight.skip(transmitted.len() as int) },
            all_reported(channel, in_flight, transmitted),
        ),
    decreases transmitted.len(),
{
    let resetting = CanStateView::Resetting { in_flight };
    if transmitted.len() == 0 {
        assert(in_flight.skip(0) =~= in_flight);
        assert(all_reported(channel, in_flight, transmitted) =~= Seq::empty());
    } else {
        let earlier = transmitted.drop_last();
        lemma_frames_are_reported(channel, in_flight, earlier);
        assert(all_done(transmitted).drop_last() =~= all_done(earlier));
        assert(in_flight.skip(earlier.len() as int).drop_first() =~= in_flight.skip(
            transmitted.len() as int,
        ));
        assert(run(channel, resetting, all_done(transmitted)).1 =~= all_reported(
            channel,
            in_flight,
            transmitted,
        ));
    }
}

/// A channel that is back in configuration mode has reported every frame that it was asked to
/// transmit, and has sent the echo IDs of the transmitted ones.
pub proof fn law_nothing_is_outstanding_after_a_reset(
    channel: u8,
    state: CanStateView,
    events: Seq<CanEvent>,
)
    requires
        run_allowed(channel, state, events),
        run(channel, state, events).0 is Configurable,
    ensures
        ({
            let asked = outstanding(state) + ids(asked_to_transmit(state, events));
            &&& outcomes(events).len() == asked.len()
            &&& asked == reported_ids(run(channel, state, events).1)
        }),
{
    law_every_frame_is_accounted_for(channel, state, events);
    let done = run(channel, state, events);
    assert(reported_ids(done.1) + outstanding(done.0) =~= reported_ids(done.1));
}

/// The settings that `actions` hand to the controller, in order.
pub open spec fn configurations(actions: Seq<CanAction>) -> Seq<CanConfig>
    decreases actions.len(),
{
    if actions.len() == 0 {
        Seq::empty()
    } else {
        match actions.last() {
            CanAction::Configure(config) => configurations(actions.drop_last()).push(config),
            _ => configurations(actions.drop_last()),
        }
    }
}

/// The bit timings that `events` ask to set in configuration mode, in order.
pub open spec fn asked_to_set(state: CanStateView, events: Seq<CanEvent>) -> Seq<BitTiming>
    decreases events.len(),
{
    if events.len() == 0 {
        Seq::empty()
    } else {
        let before = asked_to_set(state, events.drop_last());
        match events.last() {
            CanEvent::Command(UsbCommand::SetNominalBitTiming(timing)) if !started(
                state,
                events.drop_last(),
            ) => before.push(timing),
            _ => before,
        }
    }
}

/// A channel hands to the controller the settings for the bit timings that it is asked to set in
/// configuration mode, in order, and no others.
pub proof fn law_controller_gets_what_was_asked(
    channel: u8,
    state: CanStateView,
    events: Seq<CanEvent>,
)
    requires
        run_allowed(channel, state, events),
    ensures
        configurations(run(channel, state, events).1) == asked_to_set(state, events).map_values(
            |timing: BitTiming| config_for(timing),
        ),
    decreases events.len(),
{
    if events.len() > 0 {
        let before = run(channel, state, events.drop_last());
        let step = bridge_step(channel, before.0, events.last());
        law_controller_gets_what_was_asked(channel, state, events.drop_last());
        law_mode_is_the_last_asked_for(channel, state, events.drop_last());
        assert(before.1.push(step.1).drop_last() =~= before.1);
    }
    assert(configurations(run(channel, state, events).1) =~= asked_to_set(
        state,
        events,
    ).map_values(|timing: BitTiming| config_for(timing)));
}

/// Every response of a channel carries its number.
pub proof fn law_responses_carry_the_channel(
    channel: u8,
    state: CanStateView,
    events: Seq<CanEvent>,
    i: int,
)
    requires
        run_allowed(channel, state, events),
        0 <= i < responses(run(channel, state, events).1).len(),
    ensures
        host_frame_of_response(responses(run(channel, state, events).1)[i]).channel == channel,
    decreases events.len(),
{
    law_host_gets_what_it_is_owed(channel, state, events);
    if events.len() > 0 {
        let before = events.drop_last();
        law_host_gets_what_it_is_owed(channel, state, before);
        if i < owed(channel, state, before).len() {
            law_responses_carry_the_channel(channel, state, before, i);
        }
    }
}

/// A host that sets a usable bit timing and starts a channel has it configured, then started; a
/// reset takes it back into configuration mode.
pub proof fn law_channel_comes_up_and_down(channel: u8, timing: BitTiming)
    requires
        timing.usable(),
    ensures
        ({
            let events = seq![
                CanEvent::Command(UsbCommand::SetNominalBitTiming(timing)),
                CanEvent::Command(UsbCommand::Start),
                CanEvent::Command(UsbCommand::Reset),
            ];
            &&& run_allowed(channel, CanStateView::Configurable, events)
            &&& run(channel, CanStateView::Configurable, events) == (
                CanStateView::Configurable,
                seq![
                    CanAction::Configure(config_for(timing)),
                    CanAction::Start,
                    CanAction::IntoConfigMode,
                ],
            )
            &&& run(channel, CanStateView::Configurable, events.drop_last()).0 is Normal
        }),
{
    let set = CanEvent::Command(UsbCommand::SetNominalBitTiming(timing));
    let start = CanEvent::Command(UsbCommand::Start);
    let reset = CanEvent::Command(UsbCommand::Reset);
    lemma_run_of_three(channel, CanStateView::Configurable, set, start, reset);
    assert(seq![set, start, reset].drop_last() =~= seq![set, start]);
}

} // verus!
