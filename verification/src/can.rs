//! What a CAN channel does with the commands it gets from USB and the frames it gets from the bus.
//!
//! The channel's task waits for the next event, asks [`can_usb_bridge`] what to do about it, does
//! it, and goes on in the state that it was told.
use crate::frame::Frame;
use crate::messages::{BitTiming, UsbCommand, UsbResponse};
use vstd::prelude::*;

verus! {

/// Number of transmit mailboxes of a controller.
pub const MAILBOXES: usize = 3;

/// A frame that the controller has in one of its mailboxes.
#[derive(Clone, Copy, Debug, PartialEq, Eq)]
pub struct InFlight {
    pub mailbox: usize,
    pub echo_id: u32,
}

/// A frame that is to be transmitted, and the echo ID that acknowledges it.
#[derive(Clone, Copy, Debug, PartialEq, Eq)]
pub struct TxRequest {
    pub frame: Frame,
    pub echo_id: u32,
}

/// The frames that a controller has in its mailboxes, from the oldest to the newest.
#[derive(Clone, Copy, Debug, PartialEq, Eq)]
pub struct TxQueue {
    first: Option<InFlight>,
    second: Option<InFlight>,
    third: Option<InFlight>,
}

/// State of a CAN channel.
#[derive(Clone, Copy, Debug, PartialEq, Eq)]
pub enum CanState {
    /// CAN is in configuration mode, transceiver is in standby
    Configurable,
    /// Normal operation mode with receiving and transmitting frames. A frame that found no free
    /// mailbox yet waits for one.
    Normal { in_flight: TxQueue, waiting: Option<TxRequest> },
    /// A reset has halted the controller; what became of the frames in its mailboxes is still to be
    /// told
    Resetting { in_flight: TxQueue },
}

/// What a [`CanState`] holds.
pub enum CanStateView {
    Configurable,
    Normal { in_flight: Seq<InFlight>, waiting: Option<TxRequest> },
    Resetting { in_flight: Seq<InFlight> },
}

/// What a CAN channel waits for.
#[derive(Clone, Copy, Debug, PartialEq, Eq)]
pub enum CanEvent {
    /// A command came from USB
    Command(UsbCommand),
    /// A frame came from the bus
    Frame(Frame),
    /// Receiving from the bus failed
    BusError,
    /// The controller would take the next frame into this mailbox
    TxFree { mailbox: usize },
    /// The oldest of the frames in flight has left the controller: it was transmitted on the bus, or
    /// it was not and will not be
    TxDone { transmitted: bool },
    /// The controller has halted
    Halted,
}

/// Bit timing parameters as the CAN controller takes them; none of them may be zero.
#[derive(Clone, Copy, Debug, PartialEq, Eq)]
pub struct NominalBitTiming {
    pub prescaler: u16,
    pub seg1: u8,
    pub seg2: u8,
    pub sync_jump_width: u8,
}

/// Settings that a channel changes from the controller's defaults.
#[derive(Clone, Copy, Debug, PartialEq, Eq)]
pub struct CanConfig {
    pub automatic_retransmit: bool,
    pub automatic_bus_off_recovery: bool,
    pub nominal_bit_timing: NominalBitTiming,
}

/// What a CAN channel does about an event.
#[derive(Clone, Copy, Debug, PartialEq, Eq)]
pub enum CanAction {
    /// Start the controller in normal operation mode
    Start,
    /// Halt the controller, so that it transmits nothing any more
    Halt,
    /// Take the controller back into configuration mode
    IntoConfigMode,
    /// Hand the settings to the controller
    Configure(CanConfig),
    /// Wait until the controller can take a frame
    AwaitMailbox,
    /// Hand the frame to the controller, which is to tell what became of it
    Transmit(TxRequest),
    /// Send the response to USB
    Respond(UsbResponse),
    /// Report a command that has no meaning in the present state
    UnknownCommand(UsbCommand),
    /// Report that receiving failed
    RxError,
    /// Report that a frame was not transmitted
    TxError { echo_id: u32 },
}

/// Every frame is in a mailbox of its own.
pub open spec fn mailboxes_distinct(in_flight: Seq<InFlight>) -> bool {
    &&& forall|i: int| 0 <= i < in_flight.len() ==> (#[trigger] in_flight[i]).mailbox < MAILBOXES
    &&& forall|i: int, j: int|
        0 <= i < j < in_flight.len() ==> (#[trigger] in_flight[i]).mailbox != (
        #[trigger] in_flight[j]).mailbox
}

/// One of the frames is in `mailbox`.
pub open spec fn holds(in_flight: Seq<InFlight>, mailbox: usize) -> bool {
    exists|i: int| 0 <= i < in_flight.len() && (#[trigger] in_flight[i]).mailbox == mailbox
}

impl View for TxQueue {
    type V = Seq<InFlight>;

    closed spec fn view(&self) -> Seq<InFlight> {
        match (self.first, self.second, self.third) {
            (Some(a), Some(b), Some(c)) => seq![a, b, c],
            (Some(a), Some(b), None) => seq![a, b],
            (Some(a), _, _) => seq![a],
            _ => Seq::empty(),
        }
    }
}

impl TxQueue {
    /// The places are filled from the front, and every frame is in a mailbox of its own.
    #[verifier::type_invariant]
    spec fn valid(self) -> bool {
        &&& self.second is Some ==> self.first is Some
        &&& self.third is Some ==> self.second is Some
        &&& self.first matches Some(a) ==> a.mailbox < MAILBOXES
        &&& self.second matches Some(b) ==> b.mailbox < MAILBOXES && b.mailbox
            != self.first->0.mailbox
        &&& self.third matches Some(c) ==> c.mailbox < MAILBOXES && c.mailbox
            != self.first->0.mailbox && c.mailbox != self.second->0.mailbox
    }

    /// No frame is in flight.
    pub fn new() -> (r: TxQueue)
        ensures
            r@ == Seq::<InFlight>::empty(),
    {
        TxQueue { first: None, second: None, third: None }
    }

    /// Tells which frame has been in flight for the longest time, if there is one.
    pub fn oldest(&self) -> (r: Option<InFlight>)
        ensures
            r is None <==> self@.len() == 0,
            r matches Some(frame) ==> frame == self@.first(),
            mailboxes_distinct(self@),
    {
        proof {
            use_type_invariant(self);
        }
        self.first
    }

    /// Tells whether one of the frames is in `mailbox`.
    pub fn holds(&self, mailbox: usize) -> (r: bool)
        ensures
            r == holds(self@, mailbox),
    {
        proof {
            use_type_invariant(self);
            if self.first is Some {
                assert(self@[0] == self.first->0);
            }
            if self.second is Some {
                assert(self@[1] == self.second->0);
            }
            if self.third is Some {
                assert(self@[2] == self.third->0);
            }
        }
        let in_first = match self.first {
            Some(frame) => frame.mailbox == mailbox,
            None => false,
        };
        let in_second = match self.second {
            Some(frame) => frame.mailbox == mailbox,
            None => false,
        };
        let in_third = match self.third {
            Some(frame) => frame.mailbox == mailbox,
            None => false,
        };
        in_first || in_second || in_third
    }

    /// The queue with one more frame in flight.
    pub fn with(self, frame: InFlight) -> (r: TxQueue)
        requires
            frame.mailbox < MAILBOXES,
            !holds(self@, frame.mailbox),
        ensures
            r@ == self@.push(frame),
    {
        proof {
            use_type_invariant(&self);
            if self.first is Some {
                assert(self@[0] == self.first->0);
            }
            if self.second is Some {
                assert(self@[1] == self.second->0);
            }
            if self.third is Some {
                assert(self@[2] == self.third->0);
            }
        }
        let r = if self.first.is_none() {
            TxQueue { first: Some(frame), second: None, third: None }
        } else if self.second.is_none() {
            TxQueue { first: self.first, second: Some(frame), third: None }
        } else {
            TxQueue { first: self.first, second: self.second, third: Some(frame) }
        };
        assert(r@ =~= self@.push(frame));
        r
    }

    /// The queue without its oldest frame.
    pub fn without_oldest(self) -> (r: TxQueue)
        requires
            self@.len() > 0,
        ensures
            r@ == self@.drop_first(),
    {
        proof {
            use_type_invariant(&self);
        }
        let r = TxQueue { first: self.second, second: self.third, third: None };
        assert(r@ =~= self@.drop_first());
        r
    }
}

impl View for CanState {
    type V = CanStateView;

    open spec fn view(&self) -> CanStateView {
        match *self {
            CanState::Configurable => CanStateView::Configurable,
            CanState::Normal { in_flight, waiting } => CanStateView::Normal {
                in_flight: in_flight@,
                waiting,
            },
            CanState::Resetting { in_flight } => CanStateView::Resetting { in_flight: in_flight@ },
        }
    }
}

impl NominalBitTiming {
    /// No parameter is zero.
    pub open spec fn nonzero(self) -> bool {
        self.prescaler != 0 && self.seg1 != 0 && self.seg2 != 0 && self.sync_jump_width != 0
    }
}

impl BitTiming {
    /// The parameters that reach the controller: its fields are narrower than the host's, and keep
    /// the low bits.
    pub open spec fn nominal(self) -> NominalBitTiming {
        NominalBitTiming {
            prescaler: (self.brp as int % 0x1_0000) as u16,
            seg1: ((self.prop_seg + self.phase_seg1) % 0x100) as u8,
            seg2: (self.phase_seg2 as int % 0x100) as u8,
            sync_jump_width: (self.sjw as int % 0x100) as u8,
        }
    }

    /// The two segments before the sample point add up, and nothing that reaches the controller is
    /// zero.
    pub open spec fn usable(self) -> bool {
        &&& self.prop_seg + self.phase_seg1 <= u32::MAX
        &&& self.nominal().nonzero()
    }

    /// Tells whether the timing can be handed to a controller.
    pub fn is_usable(&self) -> (r: bool)
        ensures
            r == self.usable(),
    {
        match self.prop_seg.checked_add(self.phase_seg1) {
            Some(seg1) => self.brp % 0x1_0000 != 0 && seg1 % 0x100 != 0 && self.phase_seg2 % 0x100
                != 0 && self.sjw % 0x100 != 0,
            None => false,
        }
    }
}

/// The settings that go with a bit timing: frames are sent once, and a channel that left the bus
/// stays off it.
pub open spec fn config_for(timing: BitTiming) -> CanConfig {
    CanConfig {
        automatic_retransmit: false,
        automatic_bus_off_recovery: false,
        nominal_bit_timing: timing.nominal(),
    }
}

/// Normal mode with nothing to transmit.
pub open spec fn idle() -> CanStateView {
    CanStateView::Normal { in_flight: Seq::empty(), waiting: None }
}

/// What is done about the end of a transmission: the echo ID goes back to USB if the frame was
/// transmitted.
pub open spec fn outcome(channel: u8, echo_id: u32, transmitted: bool) -> CanAction {
    if transmitted {
        CanAction::Respond(UsbResponse::EchoId { channel, echo_id })
    } else {
        CanAction::TxError { echo_id }
    }
}

/// A step in configuration mode: the next state, and what to do.
pub open spec fn configurable_step(command: UsbCommand) -> (CanStateView, CanAction) {
    match command {
        UsbCommand::Start => (idle(), CanAction::Start),
        UsbCommand::SetNominalBitTiming(timing) => (
            CanStateView::Configurable,
            CanAction::Configure(config_for(timing)),
        ),
        _ => (CanStateView::Configurable, CanAction::UnknownCommand(command)),
    }
}

/// A step in normal mode: the next state, and what to do.
pub open spec fn normal_step(
    channel: u8,
    in_flight: Seq<InFlight>,
    waiting: Option<TxRequest>,
    event: CanEvent,
) -> (CanStateView, CanAction) {
    let same = CanStateView::Normal { in_flight, waiting };
    match event {
        CanEvent::Command(UsbCommand::Reset) => if in_flight.len() == 0 {
            (CanStateView::Configurable, CanAction::IntoConfigMode)
        } else {
            (CanStateView::Resetting { in_flight }, CanAction::Halt)
        },
        CanEvent::Command(UsbCommand::TxFrame { frame, echo_id }) => (
            CanStateView::Normal { in_flight, waiting: Some(TxRequest { frame, echo_id }) },
            CanAction::AwaitMailbox,
        ),
        CanEvent::Command(command) => (same, CanAction::UnknownCommand(command)),
        CanEvent::Frame(frame) => (
            same,
            CanAction::Respond(UsbResponse::RxFrame { channel, frame }),
        ),
        CanEvent::TxFree { mailbox } => (
            CanStateView::Normal {
                in_flight: in_flight.push(InFlight { mailbox, echo_id: waiting->0.echo_id }),
                waiting: None,
            },
            CanAction::Transmit(waiting->0),
        ),
        CanEvent::TxDone { transmitted } => (
            CanStateView::Normal { in_flight: in_flight.drop_first(), waiting },
            outcome(channel, in_flight.first().echo_id, transmitted),
        ),
        _ => (same, CanAction::RxError),
    }
}

/// A step on the way back to configuration mode: the next state, and what to do.
pub open spec fn resetting_step(channel: u8, in_flight: Seq<InFlight>, event: CanEvent) -> (
    CanStateView,
    CanAction,
) {
    match event {
        CanEvent::TxDone { transmitted } => (
            CanStateView::Resetting { in_flight: in_flight.drop_first() },
            outcome(channel, in_flight.first().echo_id, transmitted),
        ),
        _ => (CanStateView::Configurable, CanAction::IntoConfigMode),
    }
}

/// A step in any state. In configuration mode nothing but a command can happen.
pub open spec fn bridge_step(channel: u8, state: CanStateView, event: CanEvent) -> (
    CanStateView,
    CanAction,
) {
    match state {
        CanStateView::Configurable => match event {
            CanEvent::Command(command) => configurable_step(command),
            _ => (state, CanAction::RxError),
        },
        CanStateView::Normal { in_flight, waiting } => normal_step(
            channel,
            in_flight,
            waiting,
            event,
        ),
        CanStateView::Resetting { in_flight } => resetting_step(channel, in_flight, event),
    }
}

/// The transceiver is in standby in `state`.
pub open spec fn standby(state: CanStateView) -> bool {
    !(state is Normal)
}

/// Tells whether the transceiver is to be in standby. In normal mode it is on the bus.
pub fn transceiver_in_standby(state: CanState) -> (r: bool)
    ensures
        r == standby(state@),
{
    match state {
        CanState::Normal { .. } => false,
        _ => true,
    }
}

/// A channel in `state` takes commands. It does not while a frame waits for a mailbox, nor while a
/// reset is under way.
pub open spec fn commands_taken(state: CanStateView) -> bool {
    match state {
        CanStateView::Configurable => true,
        CanStateView::Normal { waiting, .. } => waiting is None,
        CanStateView::Resetting { .. } => false,
    }
}

/// Tells whether a channel takes commands.
pub fn takes_commands(state: CanState) -> (r: bool)
    ensures
        r == commands_taken(state@),
{
    match state {
        CanState::Configurable => true,
        CanState::Normal { waiting, .. } => waiting.is_none(),
        CanState::Resetting { .. } => false,
    }
}

/// The frames that the controller has in its mailboxes, from the oldest to the newest.
pub open spec fn in_flight(state: CanStateView) -> Seq<InFlight> {
    match state {
        CanStateView::Configurable => Seq::empty(),
        CanStateView::Normal { in_flight, .. } => in_flight,
        CanStateView::Resetting { in_flight } => in_flight,
    }
}

/// Tells which mailbox holds the oldest of the frames in flight, if there is one.
pub fn oldest_mailbox(state: CanState) -> (r: Option<usize>)
    ensures
        r is None <==> in_flight(state@).len() == 0,
        r matches Some(mailbox) ==> mailbox == in_flight(state@).first().mailbox && mailbox
            < MAILBOXES,
{
    let oldest = match state {
        CanState::Configurable => None,
        CanState::Normal { in_flight, .. } => in_flight.oldest(),
        CanState::Resetting { in_flight } => in_flight.oldest(),
    };
    match oldest {
        Some(frame) => Some(frame.mailbox),
        None => None,
    }
}

/// `event` can happen in `state`, and the channel can act on it. In configuration mode the
/// controller is off the bus, and takes usable bit timings only. A frame is handed to a mailbox only
/// if it waits for one, and if no other frame is in that mailbox. Only a frame in flight can leave
/// the controller. A reset is over when there is none.
pub open spec fn event_allowed(state: CanStateView, event: CanEvent) -> bool {
    match event {
        CanEvent::Command(command) => {
            &&& commands_taken(state)
            &&& state is Configurable && command is SetNominalBitTiming
                ==> command->SetNominalBitTiming_0.usable()
        },
        CanEvent::Frame(_) => state is Normal,
        CanEvent::BusError => state is Normal,
        CanEvent::TxFree { mailbox } => {
            &&& state matches CanStateView::Normal { in_flight, waiting }
            &&& waiting is Some
            &&& mailbox < MAILBOXES
            &&& !holds(in_flight, mailbox)
        },
        CanEvent::TxDone { .. } => in_flight(state).len() > 0,
        CanEvent::Halted => state is Resetting && in_flight(state).len() == 0,
    }
}

/// Tells whether the channel can act on `event` in `state`.
pub fn is_event_allowed(state: CanState, event: CanEvent) -> (r: bool)
    ensures
        r == event_allowed(state@, event),
{
    match event {
        CanEvent::Command(command) => takes_commands(state) && match (state, command) {
            (CanState::Configurable, UsbCommand::SetNominalBitTiming(timing)) => timing.is_usable(),
            _ => true,
        },
        CanEvent::Frame(_) => !transceiver_in_standby(state),
        CanEvent::BusError => !transceiver_in_standby(state),
        CanEvent::TxFree { mailbox } => match state {
            CanState::Normal { in_flight, waiting } => waiting.is_some() && mailbox < MAILBOXES
                && !in_flight.holds(mailbox),
            _ => false,
        },
        CanEvent::TxDone { .. } => oldest_mailbox(state).is_some(),
        CanEvent::Halted => match state {
            CanState::Resetting { .. } => oldest_mailbox(state).is_none(),
            _ => false,
        },
    }
}

/// Tells what a channel does about a command in configuration mode. No CAN frames are processed
/// in this mode.
pub fn run_configurable(command: UsbCommand) -> (r: (CanState, CanAction))
    requires
        event_allowed(CanStateView::Configurable, CanEvent::Command(command)),
    ensures
        (r.0@, r.1) == configurable_step(command),
        r.1 matches CanAction::Configure(config) ==> config.nominal_bit_timing.nonzero(),
{
    match command {
        UsbCommand::Start => (
            CanState::Normal { in_flight: TxQueue::new(), waiting: None },
            CanAction::Start,
        ),
        UsbCommand::SetNominalBitTiming(bit_timing) => {
            let config = CanConfig {
                automatic_retransmit: false,
                automatic_bus_off_recovery: false,
                nominal_bit_timing: NominalBitTiming {
                    prescaler: (bit_timing.brp % 0x1_0000) as u16,
                    seg1: ((bit_timing.prop_seg + bit_timing.phase_seg1) % 0x100) as u8,
                    seg2: (bit_timing.phase_seg2 % 0x100) as u8,
                    sync_jump_width: (bit_timing.sjw % 0x100) as u8,
                },
            };
            (CanState::Configurable, CanAction::Configure(config))
        },
        command => (CanState::Configurable, CanAction::UnknownCommand(command)),
    }
}

/// Tells what is done about the end of a transmission.
fn report(channel: u8, echo_id: u32, transmitted: bool) -> (r: CanAction)
    ensures
        r == outcome(channel, echo_id, transmitted),
{
    if transmitted {
        // the echo ID goes back to USB to acknowledge transmission
        CanAction::Respond(UsbResponse::EchoId { channel, echo_id })
    } else {
        CanAction::TxError { echo_id }
    }
}

/// Tells what a channel does about an event in normal mode, bridging frames to/from USB. A reset
/// takes it back to configuration mode, once it is known what became of the frames in flight.
pub fn run_normal(
    channel: u8,
    in_flight: TxQueue,
    waiting: Option<TxRequest>,
    event: CanEvent,
) -> (r: (CanState, CanAction))
    requires
        event_allowed(CanStateView::Normal { in_flight: in_flight@, waiting }, event),
    ensures
        (r.0@, r.1) == normal_step(channel, in_flight@, waiting, event),
{
    let same = CanState::Normal { in_flight, waiting };
    match (event, in_flight.oldest(), waiting) {
        (CanEvent::Command(UsbCommand::Reset), None, _) => (
            CanState::Configurable,
            CanAction::IntoConfigMode,
        ),
        (CanEvent::Command(UsbCommand::Reset), Some(_), _) => (
            CanState::Resetting { in_flight },
            CanAction::Halt,
        ),
        (CanEvent::Command(UsbCommand::TxFrame { frame, echo_id }), _, _) => (
            CanState::Normal { in_flight, waiting: Some(TxRequest { frame, echo_id }) },
            CanAction::AwaitMailbox,
        ),
        (CanEvent::Command(command), _, _) => (same, CanAction::UnknownCommand(command)),
        (CanEvent::Frame(frame), _, _) => (
            same,
            CanAction::Respond(UsbResponse::RxFrame { channel, frame }),
        ),
        (CanEvent::TxFree { mailbox }, _, Some(request)) => {
            let in_flight = in_flight.with(InFlight { mailbox, echo_id: request.echo_id });
            (CanState::Normal { in_flight, waiting: None }, CanAction::Transmit(request))
        },
        (CanEvent::TxDone { transmitted }, Some(frame), _) => (
            CanState::Normal { in_flight: in_flight.without_oldest(), waiting },
            report(channel, frame.echo_id, transmitted),
        ),
        // only a bus error is left
        _ => (same, CanAction::RxError),
    }
}

/// Tells what a channel does on the way back to configuration mode: it reports what became of the
/// frames in flight, and only then lets go of them.
pub fn run_resetting(channel: u8, in_flight: TxQueue, event: CanEvent) -> (r: (
    CanState,
    CanAction,
))
    requires
        event_allowed(CanStateView::Resetting { in_flight: in_flight@ }, event),
    ensures
        (r.0@, r.1) == resetting_step(channel, in_flight@, event),
{
    match (event, in_flight.oldest()) {
        (CanEvent::TxDone { transmitted }, Some(frame)) => (
            CanState::Resetting { in_flight: in_flight.without_oldest() },
            report(channel, frame.echo_id, transmitted),
        ),
        _ => (CanState::Configurable, CanAction::IntoConfigMode),
    }
}

/// Tells what the channel numbered `channel` does about `event`, and the state it goes on in.
pub fn can_usb_bridge(channel: u8, state: CanState, event: CanEvent) -> (r: (CanState, CanAction))
    requires
        event_allowed(state@, event),
    ensures
        (r.0@, r.1) == bridge_step(channel, state@, event),
        r.1 matches CanAction::Configure(config) ==> config.nominal_bit_timing.nonzero(),
{
    match state {
        CanState::Configurable => match event {
            CanEvent::Command(command) => run_configurable(command),
            _ => (state, CanAction::RxError),
        },
        CanState::Normal { in_flight, waiting } => run_normal(channel, in_flight, waiting, event),
        CanState::Resetting { in_flight } => run_resetting(channel, in_flight, event),
    }
}

} // verus!
