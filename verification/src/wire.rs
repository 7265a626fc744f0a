//! What the bytes on USB mean, byte by byte.
use crate::bulk::{
    frame_of_transfer, host_frame_at, host_frame_bytes, host_frame_of_response, id_of_word,
    transfer_allowed, word_of_id, BULK_BUF_SIZE,
};
use crate::bytes::{
    law_u32_is_read_byte_by_byte, law_u32_is_written_byte_by_byte, law_u32_read_rebuilds, u32_at,
    u32_bytes,
};
use crate::can::{bridge_step, event_allowed, CanAction, CanEvent, CanStateView};
use crate::control::{
    bt_const_at, bt_const_reply, device_config_at, device_config_reply, BtConst,
    GsUsbControlHandler, InResponse, Recipient, Request, RequestType, BYTE_ORDER_LITTLE_ENDIAN,
    CAN_FREQ, GS_CAN_MODE_RESET, GS_CAN_MODE_START, GS_USB_BREQ_BITTIMING, GS_USB_BREQ_BT_CONST,
    GS_USB_BREQ_DEVICE_CONFIG, GS_USB_BREQ_HOST_FORMAT, GS_USB_BREQ_MODE,
};
use crate::frame::{Frame, FrameView, Id, IdView, EXTENDED_ID_MAX, FRAME_DATA_MAX, STANDARD_ID_MAX};
use crate::messages::{BitTiming, UsbCommand, UsbResponse, INTERFACES};
use vstd::prelude::*;

verus! {

/// The CAN ID word of a standard identifier is the identifier as a number; the word of an extended
/// one has the top bit set as well.
pub proof fn law_id_is_the_number_in_its_word(id: IdView)
    requires
        id.valid(),
    ensures
        id matches IdView::Standard(raw) ==> raw <= 0x7FF && word_of_id(id) == raw,
        id matches IdView::Extended(raw) ==> raw <= 0x1FFF_FFFF && word_of_id(id) == 0x8000_0000
            + raw,
{
}

/// A CAN ID word with the top bit set stands for the extended identifier that it differs from by a
/// multiple of 2^29 only, and one without it for the standard identifier that it differs from by a
/// multiple of 2^16 only.
pub proof fn law_word_stands_for_its_low_bits(word: u32)
    ensures
        word < 0x8000_0000 ==> (id_of_word(word) matches IdView::Standard(raw) && (word - raw)
            % 0x1_0000 == 0),
        word >= 0x8000_0000 ==> (id_of_word(word) matches IdView::Extended(raw) && raw
            < 0x2000_0000 && (word - raw) % 0x2000_0000 == 0),
{
}

/// Every number of 11 bits is a standard identifier, every number of 29 bits is an extended one, and
/// no other number is an identifier. A payload has eight bytes at most.
pub proof fn law_classic_frames_fit(standard: u16, extended: u32, data: Seq<u8>)
    ensures
        IdView::Standard(standard).valid() <==> standard < 0x800,
        IdView::Extended(extended).valid() <==> extended < 0x2000_0000,
        (FrameView { id: IdView::Standard(standard), data }).valid() <==> standard < 0x800
            && data.len() <= 8,
        (FrameView { id: IdView::Extended(extended), data }).valid() <==> extended < 0x2000_0000
            && data.len() <= 8,
        standard <= STANDARD_ID_MAX <==> standard < 0x800,
        extended <= EXTENDED_ID_MAX <==> extended < 0x2000_0000,
        data.len() <= FRAME_DATA_MAX <==> data.len() <= 8,
{
}

/// An identifier stands for its own kind and number.
pub proof fn law_id_stands_for_itself(id: Id)
    ensures
        id matches Id::Standard(standard) ==> id@ == IdView::Standard(standard@),
        id matches Id::Extended(extended) ==> id@ == IdView::Extended(extended@),
{
}

/// A transfer holds a frame if it has a header of 12 bytes, if the length in byte 8 is at most eight
/// and that many bytes follow the header, if byte 9 names one of the three channels, and if the
/// identifier is extended, or has no more than 11 of the low 16 bits.
pub proof fn law_transfer_is_well_formed(b: Seq<u8>)
    ensures
        transfer_allowed(b) <==> b.len() >= 12 && b[8] <= 8 && b.len() >= 12 + b[8] && b[9] < 3 && (
        b[7] >= 0x80 || b[5] < 8),
{
    if b.len() >= 12 {
        lemma_word(b[4], b[5], b[6], b[7], host_frame_at(b).can_id);
    }
}

/// A frame comes out of a transfer as it lies there: the echo ID in bytes 0 to 3 and the identifier
/// in bytes 4 to 7, both least significant byte first, with the top bit of byte 7 for an extended
/// identifier, the channel in byte 9, and as many bytes of payload as byte 8 says, from byte 12 on.
pub proof fn law_transfer_is_read_byte_by_byte(b: Seq<u8>)
    requires
        transfer_allowed(b),
    ensures
        host_frame_at(b).echo_id == b[0] + 0x100 * b[1] + 0x1_0000 * b[2] + 0x100_0000 * b[3],
        host_frame_at(b).channel == b[9],
        b[7] < 0x80 ==> (frame_of_transfer(b).id matches IdView::Standard(raw) && raw == b[4]
            + 0x100 * b[5]),
        b[7] >= 0x80 ==> (frame_of_transfer(b).id matches IdView::Extended(raw) && raw == b[4]
            + 0x100 * b[5] + 0x1_0000 * b[6] + 0x100_0000 * (b[7] % 0x20)),
        frame_of_transfer(b).data.len() == b[8],
        forall|i: int|
            0 <= i < b[8] ==> (#[trigger] frame_of_transfer(b).data[i]) == b[12 + i],
        forall|i: int| 0 <= i < b[8] ==> (#[trigger] host_frame_at(b).data[i]) == b[12 + i],
{
    lemma_word(b[4], b[5], b[6], b[7], host_frame_at(b).can_id);
}

/// What the bytes of a CAN ID word say about its parts.
proof fn lemma_word(b0: u8, b1: u8, b2: u8, b3: u8, word: u32)
    by (bit_vector)
    requires
        word == b0 + 0x100 * b1 + 0x1_0000 * b2 + 0x100_0000 * b3,
    ensures
        word >= 0x8000_0000u32 <==> b3 >= 0x80,
        word % 0x1_0000 == b0 + 0x100 * b1,
        word % 0x1_0000 <= 0x7FF <==> b1 < 8,
        word % 0x2000_0000 == b0 + 0x100 * b1 + 0x1_0000 * b2 + 0x100_0000 * (b3 % 0x20),
{
}

/// An acknowledgement is 12 bytes: the echo ID, least significant byte first, the channel in byte 9,
/// and zeros.
pub proof fn law_acknowledgement_is_written_byte_by_byte(channel: u8, echo_id: u32)
    ensures
        ({
            let b = host_frame_bytes(
                host_frame_of_response(UsbResponse::EchoId { channel, echo_id }),
            );
            &&& b.len() == 12
            &&& echo_id == b[0] + 0x100 * b[1] + 0x1_0000 * b[2] + 0x100_0000 * b[3]
            &&& b.subrange(4, 12) == seq![0u8, 0, 0, 0, 0, channel, 0, 0]
        }),
{
    law_u32_is_written_byte_by_byte(echo_id);
    let b = host_frame_bytes(host_frame_of_response(UsbResponse::EchoId { channel, echo_id }));
    assert(b.subrange(4, 12) =~= seq![0u8, 0, 0, 0, 0, channel, 0, 0]);
}

/// A received frame is 12 bytes and its payload: four bytes of ones for the echo ID, the identifier
/// in bytes 4 to 7, least significant byte first, with the top bit of byte 7 for an extended one,
/// the length in byte 8, the channel in byte 9, two zeros, and the payload in its order.
pub proof fn law_reception_is_written_byte_by_byte(channel: u8, frame: Frame)
    requires
        frame@.valid(),
    ensures
        ({
            let b = host_frame_bytes(
                host_frame_of_response(UsbResponse::RxFrame { channel, frame }),
            );
            &&& b.len() == 12 + frame@.data.len()
            &&& b[0] == 0xFF && b[1] == 0xFF && b[2] == 0xFF && b[3] == 0xFF
            &&& frame@.id matches IdView::Standard(raw) ==> raw == b[4] + 0x100 * b[5] && b[6] == 0
                && b[7] == 0
            &&& frame@.id matches IdView::Extended(raw) ==> b[7] >= 0x80 && raw == b[4] + 0x100
                * b[5] + 0x1_0000 * b[6] + 0x100_0000 * (b[7] - 0x80)
            &&& b[8] == frame@.data.len()
            &&& b[9] == channel
            &&& b[10] == 0 && b[11] == 0
            &&& forall|i: int|
                0 <= i < frame@.data.len() ==> b[12 + i] == #[trigger] frame@.data[i]
        }),
{
    law_u32_is_written_byte_by_byte(word_of_id(frame@.id));
    law_u32_is_written_byte_by_byte(0xFFFF_FFFF);
}

/// The two ends of the bridge agree on where a payload lies: what a transfer brings for the bus, a
/// reception takes back at the same places.
pub proof fn law_payload_keeps_its_places(b: Seq<u8>, channel: u8, frame: Frame, i: int)
    requires
        transfer_allowed(b),
        frame@ == frame_of_transfer(b),
        12 <= i < 12 + b[8],
    ensures
        host_frame_bytes(host_frame_of_response(UsbResponse::RxFrame { channel, frame }))[i]
            == b[i],
{
    law_transfer_is_read_byte_by_byte(b);
    law_transfer_is_well_formed(b);
    law_reception_is_written_byte_by_byte(channel, frame);
    assert(frame@.data[i - 12] == b[12 + (i - 12)]);
}

/// Every response fits the buffer for one transfer, and one packet of 64 bytes with room left.
pub proof fn law_response_fits(response: UsbResponse)
    requires
        response matches UsbResponse::RxFrame { frame, .. } ==> frame@.valid(),
    ensures
        12 <= host_frame_bytes(host_frame_of_response(response)).len() <= 20,
        host_frame_bytes(host_frame_of_response(response)).len() <= BULK_BUF_SIZE,
        BULK_BUF_SIZE == 128,
{
}

/// The requests, the modes and the byte order go by the numbers of the protocol.
pub proof fn law_requests_go_by_their_numbers(request: u8, number: u32)
    ensures
        request == GS_USB_BREQ_HOST_FORMAT <==> request == 0,
        request == GS_USB_BREQ_BITTIMING <==> request == 1,
        request == GS_USB_BREQ_MODE <==> request == 2,
        request == GS_USB_BREQ_BT_CONST <==> request == 4,
        request == GS_USB_BREQ_DEVICE_CONFIG <==> request == 5,
        number == GS_CAN_MODE_RESET <==> number == 0,
        number == GS_CAN_MODE_START <==> number == 1,
        number == BYTE_ORDER_LITTLE_ENDIAN <==> number == 0xBEEF,
        number < INTERFACES <==> number < 3,
{
}

/// A handler answers the vendor requests to its own interface, and no others: a request for another
/// interface, or of another type, or to another recipient is not for it.
pub proof fn law_handler_answers_for_its_interface(handler: GsUsbControlHandler, req: Request)
    ensures
        handler.addressed(req) <==> (req.request_type == RequestType::Vendor && req.recipient
            == Recipient::Interface && req.index == handler.if_num),
{
}

/// A control OUT request for the handler is about one of the three channels. A byte order takes four
/// bytes, a bit timing 20 and a mode eight; the mode is zero or one.
pub proof fn law_out_request_is_well_formed(
    handler: GsUsbControlHandler,
    req: Request,
    buf: Seq<u8>,
)
    requires
        handler.addressed(req),
    ensures
        handler.out_allowed(req, buf) <==> {
            &&& req.value < 3
            &&& req.request == 0 ==> buf.len() >= 4
            &&& req.request == 1 ==> buf.len() >= 20
            &&& req.request == 2 ==> buf.len() >= 8 && buf[0] <= 1 && buf[1] == 0 && buf[2] == 0
                && buf[3] == 0
        },
{
}

/// Only a host that writes its byte order as EF BE 00 00 is accepted, and nothing is queued either
/// way.
pub proof fn law_byte_order_is_little_endian(
    handler: GsUsbControlHandler,
    req: Request,
    buf: Seq<u8>,
)
    requires
        handler.addressed(req),
        handler.out_allowed(req, buf),
        req.request == 0,
    ensures
        handler.out_reply(req, buf) matches Some(reply) && reply.command is None && (reply.response
            is Accepted <==> buf[0] == 0xEF && buf[1] == 0xBE && buf[2] == 0 && buf[3] == 0),
{
}

/// A bit timing request is accepted, and queues for the channel that it names a timing whose five
/// numbers, each least significant byte first, spell the 20 bytes of the message.
pub proof fn law_sent_timing_is_queued(handler: GsUsbControlHandler, req: Request, buf: Seq<u8>)
    requires
        handler.addressed(req),
        handler.out_allowed(req, buf),
        req.request == 1,
    ensures
        handler.out_reply(req, buf) matches Some(reply) && reply.response is Accepted && (
        reply.command matches Some(queued) && queued.channel == req.value && (
        queued.command matches UsbCommand::SetNominalBitTiming(t) && {
            &&& u32_bytes(t.prop_seg) + u32_bytes(t.phase_seg1) + u32_bytes(t.phase_seg2)
                + u32_bytes(t.sjw) + u32_bytes(t.brp) == buf.subrange(0, 20)
            &&& t.prop_seg == buf[0] + 0x100 * buf[1] + 0x1_0000 * buf[2] + 0x100_0000 * buf[3]
            &&& t.phase_seg1 == buf[4] + 0x100 * buf[5] + 0x1_0000 * buf[6] + 0x100_0000 * buf[7]
            &&& t.phase_seg2 == buf[8] + 0x100 * buf[9] + 0x1_0000 * buf[10] + 0x100_0000 * buf[11]
            &&& t.sjw == buf[12] + 0x100 * buf[13] + 0x1_0000 * buf[14] + 0x100_0000 * buf[15]
            &&& t.brp == buf[16] + 0x100 * buf[17] + 0x1_0000 * buf[18] + 0x100_0000 * buf[19]
        })),
{
    let reply = handler.out_reply(req, buf)->0;
    let t = reply.command->0.command->SetNominalBitTiming_0;
    law_u32_read_rebuilds(buf, 0);
    law_u32_read_rebuilds(buf, 4);
    law_u32_read_rebuilds(buf, 8);
    law_u32_read_rebuilds(buf, 12);
    law_u32_read_rebuilds(buf, 16);
    assert(u32_bytes(t.prop_seg) + u32_bytes(t.phase_seg1) + u32_bytes(t.phase_seg2) + u32_bytes(
        t.sjw,
    ) + u32_bytes(t.brp) =~= buf.subrange(0, 20));
}

/// A host that keeps the limits, and leaves one quantum of the segments before the sample point, has
/// the controller run with the numbers that it sent: the prescaler is the one in bytes 16 and 17 of
/// the message, the segments before the sample point are the first two numbers added, and those
/// behind it and the jump width are the third and the fourth.
pub proof fn law_sent_timing_reaches_the_controller(
    handler: GsUsbControlHandler,
    req: Request,
    channel: u8,
    timing: BitTiming,
    rest: Seq<u8>,
)
    requires
        handler.addressed(req),
        req.request == 1,
        req.value < 3,
        1 <= timing.prop_seg + timing.phase_seg1 <= 255,
        1 <= timing.phase_seg2 <= 128,
        1 <= timing.sjw <= 128,
        1 <= timing.brp <= 512,
    ensures
        ({
            let message = u32_bytes(timing.prop_seg) + u32_bytes(timing.phase_seg1) + u32_bytes(
                timing.phase_seg2,
            ) + u32_bytes(timing.sjw) + u32_bytes(timing.brp) + rest;
            &&& handler.out_allowed(req, message)
            &&& handler.out_reply(req, message) matches Some(reply)
            &&& reply.command matches Some(queued)
            &&& event_allowed(CanStateView::Configurable, CanEvent::Command(queued.command))
            &&& bridge_step(
                channel,
                CanStateView::Configurable,
                CanEvent::Command(queued.command),
            ).1 matches CanAction::Configure(config)
            &&& config.nominal_bit_timing.prescaler == timing.brp
            &&& config.nominal_bit_timing.seg1 == timing.prop_seg + timing.phase_seg1
            &&& config.nominal_bit_timing.seg2 == timing.phase_seg2
            &&& config.nominal_bit_timing.sync_jump_width == timing.sjw
        }),
{
    let message = u32_bytes(timing.prop_seg) + u32_bytes(timing.phase_seg1) + u32_bytes(
        timing.phase_seg2,
    ) + u32_bytes(timing.sjw) + u32_bytes(timing.brp) + rest;
    law_u32_is_written_byte_by_byte(timing.prop_seg);
    law_u32_is_written_byte_by_byte(timing.phase_seg1);
    law_u32_is_written_byte_by_byte(timing.phase_seg2);
    law_u32_is_written_byte_by_byte(timing.sjw);
    law_u32_is_written_byte_by_byte(timing.brp);
    law_sent_timing_is_queued(handler, req, message);
}

/// A mode request is accepted, and queues for the channel that it names a start if its first byte is
/// one, and a reset if it is zero.
pub proof fn law_sent_mode_is_queued(handler: GsUsbControlHandler, req: Request, buf: Seq<u8>)
    requires
        handler.addressed(req),
        handler.out_allowed(req, buf),
        req.request == 2,
    ensures
        handler.out_reply(req, buf) matches Some(reply) && reply.response is Accepted && (
        reply.command matches Some(queued) && queued.channel == req.value && (queued.command
            is Start <==> buf[0] == 1) && (queued.command is Reset <==> buf[0] == 0)),
{
}

/// Any other request that sends data is rejected, and queues nothing.
pub proof fn law_other_out_requests_are_rejected(
    handler: GsUsbControlHandler,
    req: Request,
    buf: Seq<u8>,
)
    requires
        handler.addressed(req),
        req.request > 2,
    ensures
        handler.out_reply(req, buf) matches Some(reply) && reply.response is Rejected
            && reply.command is None,
{
}

/// Request 4 asks for the bit timing limits, 40 bytes, and request 5 for the device configuration,
/// 12 bytes. Any other request for data is rejected.
pub proof fn law_in_request_tells_its_size(
    handler: GsUsbControlHandler,
    req: Request,
    buf_len: nat,
)
    requires
        handler.addressed(req),
    ensures
        handler.in_response(req) == Some(
            if req.request == 4 {
                InResponse::Accepted { len: 40 }
            } else if req.request == 5 {
                InResponse::Accepted { len: 12 }
            } else {
                InResponse::Rejected
            },
        ),
        handler.in_allowed(req, buf_len) <==> (handler.in_response(
            req,
        ) matches Some(InResponse::Accepted { len }) ==> len <= buf_len),
{
}

/// The host is told a clock of 24 MHz, from 1 to 256 quanta before the sample point and from 1 to 128
/// behind it, a jump width of up to 128, and a prescaler from 1 to 512 in steps of 1, whatever was
/// in the buffer.
pub proof fn law_limits_are_always_the_same(before: BtConst)
    ensures
        ({
            let told = bt_const_reply(before);
            &&& told.fclk_can == 24_000_000
            &&& told.fclk_can == CAN_FREQ
            &&& told.tseg1_min == 1 && told.tseg1_max == 256
            &&& told.tseg2_min == 1 && told.tseg2_max == 128
            &&& told.sjw_max == 128
            &&& told.brp_min == 1 && told.brp_max == 512 && told.brp_inc == 1
            &&& told.feature == before.feature
        }),
{
}

/// The reply to a request for the bit timing limits is 40 bytes: the first four as they were in the
/// buffer, and behind them the nine numbers, each least significant byte first.
pub proof fn law_limits_are_written_byte_by_byte(before: Seq<u8>, after: Seq<u8>)
    requires
        before.len() >= 40,
        after.len() == before.len(),
        bt_const_at(after) == bt_const_reply(bt_const_at(before)),
    ensures
        after.subrange(0, 4) == before.subrange(0, 4),
        after.subrange(4, 8) == seq![0x00u8, 0x36, 0x6E, 0x01],
        after.subrange(8, 12) == seq![1u8, 0, 0, 0],
        after.subrange(12, 16) == seq![0u8, 1, 0, 0],
        after.subrange(16, 20) == seq![1u8, 0, 0, 0],
        after.subrange(20, 24) == seq![128u8, 0, 0, 0],
        after.subrange(24, 28) == seq![128u8, 0, 0, 0],
        after.subrange(28, 32) == seq![1u8, 0, 0, 0],
        after.subrange(32, 36) == seq![0u8, 2, 0, 0],
        after.subrange(36, 40) == seq![1u8, 0, 0, 0],
{
    assert(bt_const_at(after).feature == bt_const_at(before).feature);
    lemma_same_bytes(before, after, 0);
    lemma_spelled(after, 4, 24_000_000);
    lemma_spelled(after, 8, 1);
    lemma_spelled(after, 12, 256);
    lemma_spelled(after, 16, 1);
    lemma_spelled(after, 20, 128);
    lemma_spelled(after, 24, 128);
    lemma_spelled(after, 28, 1);
    lemma_spelled(after, 32, 512);
    lemma_spelled(after, 36, 1);
    assert(after.subrange(4, 8) =~= seq![0x00u8, 0x36, 0x6E, 0x01]);
    assert(after.subrange(8, 12) =~= seq![1u8, 0, 0, 0]);
    assert(after.subrange(12, 16) =~= seq![0u8, 1, 0, 0]);
    assert(after.subrange(16, 20) =~= seq![1u8, 0, 0, 0]);
    assert(after.subrange(20, 24) =~= seq![128u8, 0, 0, 0]);
    assert(after.subrange(24, 28) =~= seq![128u8, 0, 0, 0]);
    assert(after.subrange(28, 32) =~= seq![1u8, 0, 0, 0]);
    assert(after.subrange(32, 36) =~= seq![0u8, 2, 0, 0]);
    assert(after.subrange(36, 40) =~= seq![1u8, 0, 0, 0]);
}

/// The reply to a request for the device configuration is 12 bytes: the first three as they were in
/// the buffer, the number of the last channel, and the versions 18 and 11.
pub proof fn law_device_config_is_written_byte_by_byte(before: Seq<u8>, after: Seq<u8>)
    requires
        before.len() >= 12,
        after.len() == before.len(),
        device_config_at(after) == device_config_reply(device_config_at(before)),
    ensures
        after.subrange(0, 12) == before.subrange(0, 3) + seq![2u8, 18, 0, 0, 0, 11, 0, 0, 0],
{
    let told = device_config_at(after);
    let old = device_config_at(before);
    assert(told.reserved1 == old.reserved1 && told.reserved2 == old.reserved2 && told.reserved3
        == old.reserved3);
    assert(told.icount == 2);
    lemma_spelled(after, 4, 18);
    lemma_spelled(after, 8, 11);
    assert(after.subrange(0, 12) =~= before.subrange(0, 3) + seq![2u8, 18, 0, 0, 0, 11, 0, 0, 0]);
}

/// Four bytes that spell a number are its digits.
proof fn lemma_spelled(b: Seq<u8>, at: int, v: u32)
    requires
        0 <= at,
        at + 4 <= b.len(),
        u32_at(b, at) == v,
    ensures
        b[at] == v % 0x100,
        b[at + 1] == v / 0x100 % 0x100,
        b[at + 2] == v / 0x1_0000 % 0x100,
        b[at + 3] == v / 0x100_0000,
{
    law_u32_is_read_byte_by_byte(b, at);
}

/// Four bytes that spell the same number are the same.
proof fn lemma_same_bytes(a: Seq<u8>, b: Seq<u8>, at: int)
    requires
        0 <= at,
        at + 4 <= a.len(),
        at + 4 <= b.len(),
        u32_at(a, at) == u32_at(b, at),
    ensures
        b.subrange(at, at + 4) == a.subrange(at, at + 4),
{
    law_u32_read_rebuilds(a, at);
    law_u32_read_rebuilds(b, at);
}

} // verus!
