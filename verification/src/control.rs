//! Control requests of the gs_usb protocol.
use crate::bytes::{read_u32, u32_at, write_u32, write_u8};
use crate::messages::{BitTiming, QueuedCommand, UsbCommand, INTERFACES};
use vstd::prelude::*;

verus! {

/// Frequency of the CAN peripheral clock in Hz (used for bit timing calculations in Linux)
pub const CAN_FREQ: u32 = 24_000_000;

/// Size of the buffer for the data of control requests
pub const CONTROL_BUF_SIZE: usize = 64;

pub const GS_USB_BREQ_HOST_FORMAT: u8 = 0;

pub const GS_USB_BREQ_BITTIMING: u8 = 1;

pub const GS_USB_BREQ_MODE: u8 = 2;

pub const GS_USB_BREQ_BT_CONST: u8 = 4;

pub const GS_USB_BREQ_DEVICE_CONFIG: u8 = 5;

pub const GS_CAN_MODE_RESET: u32 = 0;

pub const GS_CAN_MODE_START: u32 = 1;

/// What the host writes as the byte order if it speaks little endian
pub const BYTE_ORDER_LITTLE_ENDIAN: u32 = 0xbeef;

/// Bytes of a host format message: the byte order.
pub const HOST_CONFIG_SIZE: usize = 4;

/// Bytes of a bit timing message: five numbers.
pub const BITTIMING_SIZE: usize = 20;

/// Bytes of a mode message: the mode and its flags.
pub const MODE_SIZE: usize = 8;

/// Bytes of a device configuration message.
pub const DEVICE_CONFIG_SIZE: usize = 12;

/// Bytes of a bit timing limits message: ten numbers.
pub const BT_CONST_SIZE: usize = 40;

/// Version of the software that the host is told
pub const SW_VERSION: u32 = 18;

/// Version of the hardware that the host is told
pub const HW_VERSION: u32 = 11;

/// Control request type.
#[derive(Clone, Copy, Debug, PartialEq, Eq, Structural)]
pub enum RequestType {
    Standard,
    Class,
    Vendor,
    Reserved,
}

/// Control request recipient.
#[derive(Clone, Copy, Debug, PartialEq, Eq, Structural)]
pub enum Recipient {
    Device,
    Interface,
    Endpoint,
    Other,
    Reserved,
}

/// What the handler reads of a control request.
#[derive(Clone, Copy, Debug, PartialEq, Eq)]
pub struct Request {
    pub request_type: RequestType,
    pub recipient: Recipient,
    /// Request code
    pub request: u8,
    /// CAN channel that the request is about
    pub value: u16,
    /// Interface that the request is sent to
    pub index: u16,
}

/// Response for a control OUT request.
#[derive(Clone, Copy, Debug, PartialEq, Eq)]
pub enum OutResponse {
    Accepted,
    Rejected,
}

/// Response for a control IN request.
#[derive(Clone, Copy, Debug, PartialEq, Eq)]
pub enum InResponse {
    /// The first `len` bytes of the buffer are the reply
    Accepted { len: usize },
    Rejected,
}

/// What follows from a control OUT request: the response, and the command to queue before it.
#[derive(Clone, Copy, Debug, PartialEq, Eq)]
pub struct OutReply {
    pub response: OutResponse,
    pub command: Option<QueuedCommand>,
}

/// Control request handler for gs_usb.
#[derive(Clone, Copy, Debug, PartialEq, Eq)]
pub struct GsUsbControlHandler {
    /// Number of the interface that the handler answers for
    pub if_num: u8,
}

/// Device configuration message.
pub struct DeviceConfig {
    pub reserved1: u8,
    pub reserved2: u8,
    pub reserved3: u8,
    /// Number of CAN interfaces - 1
    pub icount: u8,
    pub sw_version: u32,
    pub hw_version: u32,
}

/// Bit timing limits message.
pub struct BtConst {
    /// Supported features
    pub feature: u32,
    /// CAN clock frequency in Hz
    pub fclk_can: u32,
    /// TSEG1 (prop_seg + phase_seg1) limits
    pub tseg1_min: u32,
    pub tseg1_max: u32,
    /// TSEG2 (phase_seg2) limits
    pub tseg2_min: u32,
    pub tseg2_max: u32,
    /// SJW (synchronization jump width) max
    pub sjw_max: u32,
    /// BRP (baudrate prescaler) limits
    pub brp_min: u32,
    pub brp_max: u32,
    pub brp_inc: u32,
}

/// The bit timing message that `b` starts with.
pub open spec fn bittiming_at(b: Seq<u8>) -> BitTiming {
    BitTiming {
        prop_seg: u32_at(b, 0),
        phase_seg1: u32_at(b, 4),
        phase_seg2: u32_at(b, 8),
        sjw: u32_at(b, 12),
        brp: u32_at(b, 16),
    }
}

/// The mode in the mode message that `b` starts with.
pub open spec fn mode_at(b: Seq<u8>) -> u32 {
    u32_at(b, 0)
}

/// The device configuration message that `b` starts with.
pub open spec fn device_config_at(b: Seq<u8>) -> DeviceConfig {
    DeviceConfig {
        reserved1: b[0],
        reserved2: b[1],
        reserved3: b[2],
        icount: b[3],
        sw_version: u32_at(b, 4),
        hw_version: u32_at(b, 8),
    }
}

/// The bit timing limits message that `b` starts with.
pub open spec fn bt_const_at(b: Seq<u8>) -> BtConst {
    BtConst {
        feature: u32_at(b, 0),
        fclk_can: u32_at(b, 4),
        tseg1_min: u32_at(b, 8),
        tseg1_max: u32_at(b, 12),
        tseg2_min: u32_at(b, 16),
        tseg2_max: u32_at(b, 20),
        sjw_max: u32_at(b, 24),
        brp_min: u32_at(b, 28),
        brp_max: u32_at(b, 32),
        brp_inc: u32_at(b, 36),
    }
}

/// The device configuration that goes out: the reserved bytes are the ones in the buffer.
pub open spec fn device_config_reply(before: DeviceConfig) -> DeviceConfig {
    DeviceConfig {
        icount: (INTERFACES - 1) as u8,
        sw_version: SW_VERSION,
        hw_version: HW_VERSION,
        ..before
    }
}

/// The bit timing limits that go out: the supported features are the ones in the buffer.
pub open spec fn bt_const_reply(before: BtConst) -> BtConst {
    BtConst {
        feature: before.feature,
        fclk_can: CAN_FREQ,
        tseg1_min: 1,
        tseg1_max: 256,
        tseg2_min: 1,
        tseg2_max: 128,
        sjw_max: 128,
        brp_min: 1,
        brp_max: 512,
        brp_inc: 1,
    }
}

/// The command that a known mode stands for.
pub open spec fn mode_command(mode: u32) -> UsbCommand {
    if mode == GS_CAN_MODE_RESET {
        UsbCommand::Reset
    } else {
        UsbCommand::Start
    }
}

impl GsUsbControlHandler {
    /// The request is a vendor request to the handler's interface.
    pub open spec fn addressed(self, req: Request) -> bool {
        &&& req.request_type is Vendor
        &&& req.recipient is Interface
        &&& req.index == self.if_num
    }

    /// A control OUT request that the handler can deal with: one for somebody else, or one about an
    /// existing channel whose data holds the whole message, and a known mode if it sets the mode.
    pub open spec fn out_allowed(self, req: Request, buf: Seq<u8>) -> bool {
        self.addressed(req) ==> {
            &&& req.value < INTERFACES
            &&& req.request == GS_USB_BREQ_HOST_FORMAT ==> buf.len() >= HOST_CONFIG_SIZE
            &&& req.request == GS_USB_BREQ_BITTIMING ==> buf.len() >= BITTIMING_SIZE
            &&& req.request == GS_USB_BREQ_MODE ==> {
                &&& buf.len() >= MODE_SIZE
                &&& mode_at(buf) == GS_CAN_MODE_RESET || mode_at(buf) == GS_CAN_MODE_START
            }
        }
    }

    /// What follows from a control OUT request.
    pub open spec fn out_reply(self, req: Request, buf: Seq<u8>) -> Option<OutReply> {
        let accepted_with = |command: UsbCommand| OutReply {
            response: OutResponse::Accepted,
            command: Some(QueuedCommand { channel: req.value as usize, command }),
        };
        if !self.addressed(req) {
            None
        } else if req.request == GS_USB_BREQ_BITTIMING {
            Some(accepted_with(UsbCommand::SetNominalBitTiming(bittiming_at(buf))))
        } else if req.request == GS_USB_BREQ_MODE {
            Some(accepted_with(mode_command(mode_at(buf))))
        } else if req.request == GS_USB_BREQ_HOST_FORMAT && u32_at(buf, 0)
            == BYTE_ORDER_LITTLE_ENDIAN {
            Some(OutReply { response: OutResponse::Accepted, command: None })
        } else {
            Some(OutReply { response: OutResponse::Rejected, command: None })
        }
    }

    /// A control IN request that the handler can deal with: the reply fits the buffer.
    pub open spec fn in_allowed(self, req: Request, buf_len: nat) -> bool {
        self.addressed(req) ==> {
            &&& req.request == GS_USB_BREQ_DEVICE_CONFIG ==> buf_len >= DEVICE_CONFIG_SIZE
            &&& req.request == GS_USB_BREQ_BT_CONST ==> buf_len >= BT_CONST_SIZE
        }
    }

    /// The response to a control IN request.
    pub open spec fn in_response(self, req: Request) -> Option<InResponse> {
        if !self.addressed(req) {
            None
        } else if req.request == GS_USB_BREQ_DEVICE_CONFIG {
            Some(InResponse::Accepted { len: DEVICE_CONFIG_SIZE })
        } else if req.request == GS_USB_BREQ_BT_CONST {
            Some(InResponse::Accepted { len: BT_CONST_SIZE })
        } else {
            Some(InResponse::Rejected)
        }
    }

    /// Tells whether the request is a vendor request to the handler's interface.
    fn is_addressed(&self, req: Request) -> (r: bool)
        ensures
            r == self.addressed(req),
    {
        if req.request_type != RequestType::Vendor || req.recipient != Recipient::Interface {
            return false;
        }
        req.index == self.if_num as u16
    }

    /// Tells whether the handler can deal with a control OUT request.
    pub fn is_out_allowed(&self, req: Request, buf: &[u8]) -> (r: bool)
        ensures
            r == self.out_allowed(req, buf@),
    {
        if !self.is_addressed(req) {
            return true;
        }
        if req.value as usize >= INTERFACES {
            return false;
        }
        match req.request {
            GS_USB_BREQ_HOST_FORMAT => buf.len() >= HOST_CONFIG_SIZE,
            GS_USB_BREQ_BITTIMING => buf.len() >= BITTIMING_SIZE,
            GS_USB_BREQ_MODE => {
                if buf.len() < MODE_SIZE {
                    return false;
                }
                let mode: u32 = read_u32(buf, 0);
                mode == GS_CAN_MODE_RESET || mode == GS_CAN_MODE_START
            },
            _ => true,
        }
    }

    /// Handles a control OUT request: sets the byte order, the bit timing or the mode of a channel.
    /// Returns `None` for a request that is not for this handler.
    pub fn control_out(&self, req: Request, buf: &[u8]) -> (r: Option<OutReply>)
        requires
            self.out_allowed(req, buf@),
        ensures
            r == self.out_reply(req, buf@),
    {
        if !self.is_addressed(req) {
            return None;
        }
        let channel: usize = req.value as usize;
        Some(
            match req.request {
                GS_USB_BREQ_HOST_FORMAT => {
                    // Only little endian communication is supported
                    if read_u32(buf, 0) == BYTE_ORDER_LITTLE_ENDIAN {
                        OutReply { response: OutResponse::Accepted, command: None }
                    } else {
                        OutReply { response: OutResponse::Rejected, command: None }
                    }
                },
                GS_USB_BREQ_BITTIMING => {
                    let bit_timing = BitTiming {
                        prop_seg: read_u32(buf, 0),
                        phase_seg1: read_u32(buf, 4),
                        phase_seg2: read_u32(buf, 8),
                        sjw: read_u32(buf, 12),
                        brp: read_u32(buf, 16),
                    };
                    let command = UsbCommand::SetNominalBitTiming(bit_timing);
                    OutReply {
                        response: OutResponse::Accepted,
                        command: Some(QueuedCommand { channel, command }),
                    }
                },
                GS_USB_BREQ_MODE => {
                    let command = match read_u32(buf, 0) {
                        GS_CAN_MODE_RESET => UsbCommand::Reset,
                        _ => UsbCommand::Start,
                    };
                    OutReply {
                        response: OutResponse::Accepted,
                        command: Some(QueuedCommand { channel, command }),
                    }
                },
                _ => OutReply { response: OutResponse::Rejected, command: None },
            },
        )
    }

    /// Tells whether the handler can deal with a control IN request.
    pub fn is_in_allowed(&self, req: Request, buf_len: usize) -> (r: bool)
        ensures
            r == self.in_allowed(req, buf_len as nat),
    {
        if !self.is_addressed(req) {
            return true;
        }
        match req.request {
            GS_USB_BREQ_DEVICE_CONFIG => buf_len >= DEVICE_CONFIG_SIZE,
            GS_USB_BREQ_BT_CONST => buf_len >= BT_CONST_SIZE,
            _ => true,
        }
    }

    /// Handles a control IN request: tells the number of channels and the versions, or the limits
    /// of the bit timing. The reply goes to the start of the buffer. Returns `None` for a request
    /// that is not for this handler.
    pub fn control_in(&self, req: Request, buf: &mut [u8]) -> (r: Option<InResponse>)
        requires
            self.in_allowed(req, old(buf)@.len()),
        ensures
            r == self.in_response(req),
            final(buf)@.len() == old(buf)@.len(),
            r matches Some(InResponse::Accepted { len }) ==> {
                &&& len <= old(buf)@.len()
                &&& final(buf)@.skip(len as int) == old(buf)@.skip(len as int)
                &&& req.request == GS_USB_BREQ_DEVICE_CONFIG ==> device_config_at(final(buf)@)
                    == device_config_reply(device_config_at(old(buf)@))
                &&& req.request == GS_USB_BREQ_BT_CONST ==> bt_const_at(final(buf)@)
                    == bt_const_reply(bt_const_at(old(buf)@))
            },
            !(r matches Some(InResponse::Accepted { .. })) ==> final(buf)@ == old(buf)@,
    {
        if !self.is_addressed(req) {
            return None;
        }
        match req.request {
            GS_USB_BREQ_DEVICE_CONFIG => {
                write_u8(buf, 3, (INTERFACES - 1) as u8);
                write_u32(buf, 4, SW_VERSION);
                write_u32(buf, 8, HW_VERSION);
                assert(buf@.skip(12) =~= old(buf)@.skip(12));
                Some(InResponse::Accepted { len: DEVICE_CONFIG_SIZE })
            },
            GS_USB_BREQ_BT_CONST => {
                write_u32(buf, 4, CAN_FREQ);

                write_u32(buf, 8, 1);
                write_u32(buf, 12, 256);

                write_u32(buf, 16, 1);
                write_u32(buf, 20, 128);

                write_u32(buf, 24, 128);

                write_u32(buf, 28, 1);
                write_u32(buf, 32, 512);
                write_u32(buf, 36, 1);
                assert(buf@.skip(40) =~= old(buf)@.skip(40));
                Some(InResponse::Accepted { len: BT_CONST_SIZE })
            },
            _ => Some(InResponse::Rejected),
        }
    }
}

} // verus!
