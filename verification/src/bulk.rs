//! CAN frames inside USB bulk transfers, in the format of the gs_usb protocol.
use crate::bytes::{read_u32, splice, u32_at, u32_bytes, write_bytes, write_u32, write_u8};
use crate::frame::{
    ExtendedId, Frame, FrameView, Id, IdView, StandardId, FRAME_DATA_MAX, STANDARD_ID_MAX,
};
use crate::messages::{QueuedCommand, UsbCommand, UsbResponse, INTERFACES};
use vstd::prelude::*;

verus! {

/// Maximal size of USB BULK packet for USB Full-Speed
pub const BULK_MAX_PACKET_SIZE: u16 = 64;

/// Maximal size of USB transfer for one CAN message
pub const BULK_BUF_SIZE: usize = 128;

/// Bytes of a host frame ahead of its data.
pub const HOST_FRAME_HDR_SIZE: usize = 12;

/// Flag in a CAN ID word that marks an extended identifier
pub const CAN_EFF_FLAG: u32 = 0x8000_0000;

/// The bits of a CAN ID word that hold an extended identifier
pub const CAN_EFF_MASK: u32 = 0x1FFF_FFFF;

/// Echo ID of a received frame
pub const ECHO_ID_RX: u32 = u32::MAX;

/// A frame as it travels over USB.
#[verifier::ext_equal]
pub struct HostFrame {
    /// ID used for acknowledging transmitted frames, -1 for received frames
    pub echo_id: u32,
    /// CAN ID with flags (EFF/standard)
    pub can_id: u32,
    /// Payload size in bytes
    pub can_dlc: u8,
    /// CAN interface number
    pub channel: u8,
    pub flags: u8,
    pub reserved: u8,
    pub data: Seq<u8>,
}

/// The header of the host frame that `b` starts with, and as much of the data as the header says.
pub open spec fn host_frame_at(b: Seq<u8>) -> HostFrame {
    HostFrame {
        echo_id: u32_at(b, 0),
        can_id: u32_at(b, 4),
        can_dlc: b[8],
        channel: b[9],
        flags: b[10],
        reserved: b[11],
        data: b.subrange(HOST_FRAME_HDR_SIZE as int, HOST_FRAME_HDR_SIZE + b[8]),
    }
}

/// The bytes of a host frame.
pub open spec fn host_frame_bytes(h: HostFrame) -> Seq<u8> {
    u32_bytes(h.echo_id) + u32_bytes(h.can_id) + seq![h.can_dlc, h.channel, h.flags, h.reserved]
        + h.data
}

/// The identifier that a CAN ID word stands for. Without the flag it is in the low 16 bits, with it
/// in the low 29.
pub open spec fn id_of_word(word: u32) -> IdView {
    if word >= CAN_EFF_FLAG {
        IdView::Extended((word as int % 0x2000_0000) as u32)
    } else {
        IdView::Standard((word as int % 0x1_0000) as u16)
    }
}

/// The CAN ID word of an identifier.
pub open spec fn word_of_id(id: IdView) -> u32 {
    match id {
        IdView::Standard(raw) => raw as u32,
        IdView::Extended(raw) => (CAN_EFF_FLAG + raw) as u32,
    }
}

/// A transfer that holds a CAN frame to transmit: the whole header, all the data that the header
/// announces and no more than a frame takes, an existing channel, and an identifier in range.
pub open spec fn transfer_allowed(b: Seq<u8>) -> bool {
    &&& b.len() >= HOST_FRAME_HDR_SIZE
    &&& b.len() >= HOST_FRAME_HDR_SIZE + host_frame_at(b).can_dlc
    &&& host_frame_at(b).can_dlc <= FRAME_DATA_MAX
    &&& host_frame_at(b).channel < INTERFACES
    &&& id_of_word(host_frame_at(b).can_id).valid()
}

/// The frame to transmit that a transfer holds.
pub open spec fn frame_of_transfer(b: Seq<u8>) -> FrameView {
    FrameView { id: id_of_word(host_frame_at(b).can_id), data: host_frame_at(b).data }
}

/// The host frame that a response is sent as. To confirm that a frame was sent on the bus, only
/// the echo ID and the channel are relevant.
pub open spec fn host_frame_of_response(response: UsbResponse) -> HostFrame {
    match response {
        UsbResponse::EchoId { channel, echo_id } => HostFrame {
            echo_id,
            can_id: 0,
            can_dlc: 0,
            channel,
            flags: 0,
            reserved: 0,
            data: Seq::empty(),
        },
        UsbResponse::RxFrame { channel, frame } => HostFrame {
            echo_id: ECHO_ID_RX,
            can_id: word_of_id(frame@.id),
            can_dlc: frame@.data.len() as u8,
            channel,
            flags: 0,
            reserved: 0,
            data: frame@.data,
        },
    }
}

/// The flag of a CAN ID word is its top bit, and the masks are remainders.
proof fn lemma_word_bits(word: u32)
    by (bit_vector)
    ensures
        (word & CAN_EFF_FLAG) > 0 <==> word >= CAN_EFF_FLAG,
        word & CAN_EFF_MASK == word % 0x2000_0000,
        word as u16 == word % 0x1_0000,
{
}

/// Setting the flag of an extended identifier adds it.
proof fn lemma_set_flag(raw: u32)
    by (bit_vector)
    requires
        raw <= CAN_EFF_MASK,
    ensures
        CAN_EFF_FLAG | raw == CAN_EFF_FLAG + raw,
{
}

/// Tells whether a transfer from USB holds a CAN frame to transmit.
pub fn is_transfer_allowed(transfer: &[u8]) -> (r: bool)
    ensures
        r == transfer_allowed(transfer@),
{
    if transfer.len() < HOST_FRAME_HDR_SIZE {
        return false;
    }
    let dlc: usize = transfer[8] as usize;
    if transfer.len() < HOST_FRAME_HDR_SIZE + dlc || dlc > FRAME_DATA_MAX {
        return false;
    }
    if transfer[9] as usize >= INTERFACES {
        return false;
    }
    let raw_can_id: u32 = read_u32(transfer, 4);
    raw_can_id >= CAN_EFF_FLAG || raw_can_id % 0x1_0000 <= STANDARD_ID_MAX as u32
}

/// Takes the CAN frame to transmit out of a transfer from USB, and tells the channel that it goes
/// to.
pub fn usb_to_can(transfer: &[u8]) -> (r: QueuedCommand)
    requires
        transfer_allowed(transfer@),
    ensures
        r.channel == host_frame_at(transfer@).channel,
        r.channel < INTERFACES,
        r.command matches UsbCommand::TxFrame { frame, echo_id } && frame@ == frame_of_transfer(
            transfer@,
        ) && echo_id == host_frame_at(transfer@).echo_id,
{
    let dlc: usize = transfer[8] as usize;
    let raw_can_id: u32 = read_u32(transfer, 4);
    proof {
        lemma_word_bits(raw_can_id);
    }
    let can_id = if (raw_can_id & CAN_EFF_FLAG) > 0 {
        Id::Extended(ExtendedId::new(raw_can_id & CAN_EFF_MASK).unwrap())
    } else {
        Id::Standard(
            StandardId::new(#[verifier::truncate] (raw_can_id as u16)).unwrap(),
        )
    };
    let data = vstd::slice::slice_subrange(
        transfer,
        HOST_FRAME_HDR_SIZE,
        HOST_FRAME_HDR_SIZE + dlc,
    );
    let frame = Frame::new_data(can_id, data).unwrap();
    let echo_id: u32 = read_u32(transfer, 0);
    let channel: usize = transfer[9] as usize;
    QueuedCommand { channel, command: UsbCommand::TxFrame { frame, echo_id } }
}

/// Writes a response to the start of the buffer as it goes to USB, and returns its size.
pub fn can_to_usb(response: UsbResponse, usb_buf: &mut [u8; BULK_BUF_SIZE]) -> (usb_len: usize)
    ensures
        usb_len == host_frame_bytes(host_frame_of_response(response)).len(),
        usb_len <= HOST_FRAME_HDR_SIZE + FRAME_DATA_MAX,
        final(usb_buf)@ == splice(
            old(usb_buf)@,
            0,
            host_frame_bytes(host_frame_of_response(response)),
        ),
{
    match response {
        UsbResponse::EchoId { channel, echo_id } => {
            // Only echo_id and channel_id are relevant to confirm the frame was sent on the bus
            write_u32(usb_buf, 0, echo_id);
            write_u32(usb_buf, 4, 0);
            write_u8(usb_buf, 8, 0);
            write_u8(usb_buf, 9, channel);
            write_u8(usb_buf, 10, 0);
            write_u8(usb_buf, 11, 0);
            HOST_FRAME_HDR_SIZE
        },
        UsbResponse::RxFrame { channel, frame } => {
            let can_id: u32 = match frame.id() {
                Id::Standard(standard_id) => standard_id.as_raw() as u32,
                Id::Extended(extended_id) => {
                    let raw: u32 = extended_id.as_raw();
                    proof {
                        lemma_set_flag(raw);
                    }
                    CAN_EFF_FLAG | raw
                },
            };
            write_u32(usb_buf, 0, ECHO_ID_RX);
            write_u32(usb_buf, 4, can_id);
            write_u8(usb_buf, 8, frame.len());
            write_u8(usb_buf, 9, channel);
            write_u8(usb_buf, 10, 0);
            write_u8(usb_buf, 11, 0);
            write_bytes(usb_buf, HOST_FRAME_HDR_SIZE, frame.data());
            HOST_FRAME_HDR_SIZE + frame.len() as usize
        },
    }
}

} // verus!
