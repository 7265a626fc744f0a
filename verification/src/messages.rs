//! What the USB side and the CAN side tell each other.
use crate::frame::Frame;
use vstd::prelude::*;

verus! {

/// Number of CAN interfaces supported.
pub const INTERFACES: usize = 3;

/// Size of per-interface queue for commands from USB.
pub const CHANNEL_QUEUE_SIZE: usize = 256;

/// Size of shared queue for responses to USB.
pub const USB_QUEUE_SIZE: usize = 1024;

/// Bit timing parameters as the host counts them, in time quanta.
#[derive(Clone, Copy, Debug, PartialEq, Eq)]
pub struct BitTiming {
    pub prop_seg: u32,
    pub phase_seg1: u32,
    pub phase_seg2: u32,
    pub sjw: u32,
    pub brp: u32,
}

/// Commands sent from USB to a CAN channel.
#[derive(Clone, Copy, Debug, PartialEq, Eq)]
pub enum UsbCommand {
    /// Reset the channel into configuration mode
    Reset,
    /// Start receiving/transmitting CAN frames
    Start,
    /// Set nominal bit timing parameters (only in configuration mode)
    SetNominalBitTiming(BitTiming),
    /// Transmit CAN frame (only in normal mode)
    TxFrame {
        frame: Frame,
        /// ID to send back to USB on successful transmission
        echo_id: u32,
    },
}

/// Responses sent from a CAN channel to USB.
#[derive(Clone, Copy, Debug, PartialEq, Eq)]
pub enum UsbResponse {
    /// Acknowledgement of transmitted frame
    EchoId { channel: u8, echo_id: u32 },
    /// Received CAN frame
    RxFrame { channel: u8, frame: Frame },
}

/// A command and the number of the CAN channel whose queue it goes to.
#[derive(Clone, Copy, Debug, PartialEq, Eq)]
pub struct QueuedCommand {
    pub channel: usize,
    pub command: UsbCommand,
}

} // verus!
