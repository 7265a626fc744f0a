//! Classic CAN frames as plain values.
use vstd::prelude::*;

verus! {

/// Largest standard (11-bit) identifier.
pub const STANDARD_ID_MAX: u16 = 0x7FF;

/// Largest extended (29-bit) identifier.
pub const EXTENDED_ID_MAX: u32 = 0x1FFF_FFFF;

/// Largest payload of a classic CAN frame, in bytes.
pub const FRAME_DATA_MAX: usize = 8;

/// Standard 11-bit CAN identifier.
#[derive(Clone, Copy, Debug, PartialEq, Eq)]
pub struct StandardId {
    raw: u16,
}

/// Extended 29-bit CAN identifier.
#[derive(Clone, Copy, Debug, PartialEq, Eq)]
pub struct ExtendedId {
    raw: u32,
}

/// CAN identifier of either kind.
#[derive(Clone, Copy, Debug, PartialEq, Eq)]
pub enum Id {
    Standard(StandardId),
    Extended(ExtendedId),
}

/// Classic CAN frame: an identifier and up to eight bytes of payload.
#[derive(Clone, Copy, Debug, PartialEq, Eq)]
pub struct Frame {
    id: Id,
    len: u8,
    bytes: [u8; 8],
}

/// What an [`Id`] stands for.
pub enum IdView {
    Standard(u16),
    Extended(u32),
}

impl IdView {
    /// The identifier is in the range of its kind.
    pub open spec fn valid(self) -> bool {
        match self {
            IdView::Standard(raw) => raw <= STANDARD_ID_MAX,
            IdView::Extended(raw) => raw <= EXTENDED_ID_MAX,
        }
    }
}

/// What a [`Frame`] stands for.
#[verifier::ext_equal]
pub struct FrameView {
    pub id: IdView,
    pub data: Seq<u8>,
}

impl FrameView {
    /// The identifier is in range and the payload fits a classic frame.
    pub open spec fn valid(self) -> bool {
        &&& self.id.valid()
        &&& self.data.len() <= FRAME_DATA_MAX
    }
}

/// The eight bytes that `data` fills, with zeros behind it.
pub open spec fn padded(data: Seq<u8>) -> Seq<u8> {
    Seq::new(FRAME_DATA_MAX as nat, |i: int| if i < data.len() { data[i] } else { 0u8 })
}

/// Calls `embedded_can::StandardId::new`, which makes an identifier of any number up to
/// [`STANDARD_ID_MAX`] and of no other, and hands out the number with
/// `embedded_can::StandardId::as_raw`, which is the one that went in.
#[verifier::external_body]
fn standard_id_new(raw: u16) -> (id: Option<u16>)
    ensures
        raw <= STANDARD_ID_MAX ==> id == Some(raw),
        raw > STANDARD_ID_MAX ==> id is None,
{
    match embedded_can::StandardId::new(raw) {
        Some(id) => Some(id.as_raw()),
        None => None,
    }
}

/// Calls `embedded_can::ExtendedId::new`, which makes an identifier of any number up to
/// [`EXTENDED_ID_MAX`] and of no other, and hands out the number with
/// `embedded_can::ExtendedId::as_raw`, which is the one that went in.
#[verifier::external_body]
fn extended_id_new(raw: u32) -> (id: Option<u32>)
    ensures
        raw <= EXTENDED_ID_MAX ==> id == Some(raw),
        raw > EXTENDED_ID_MAX ==> id is None,
{
    match embedded_can::ExtendedId::new(raw) {
        Some(id) => Some(id.as_raw()),
        None => None,
    }
}

/// Calls `embassy_stm32::can::Frame::new_data` and hands out the identifier, the length and the
/// raw bytes of the frame. A payload of up to eight bytes makes a frame that holds the given
/// identifier, the payload's length, and the payload followed by zeros; a longer one makes none.
#[verifier::external_body]
fn frame_new_data(id: Id, data: &[u8]) -> (frame: Option<(Id, u8, [u8; 8])>)
    requires
        id@.valid(),
    ensures
        frame is Some <==> data@.len() <= FRAME_DATA_MAX,
        frame matches Some(f) ==> f.0@ == id@ && f.1 == data@.len() && f.2@ == padded(data@),
{
    let outside: embedded_can::Id = match id {
        Id::Standard(id) => embedded_can::StandardId::new(id.raw).unwrap().into(),
        Id::Extended(id) => embedded_can::ExtendedId::new(id.raw).unwrap().into(),
    };
    match embassy_stm32::can::Frame::new_data(outside, data) {
        Ok(frame) => {
            let id = match frame.id() {
                embedded_can::Id::Standard(id) => Id::Standard(StandardId { raw: id.as_raw() }),
                embedded_can::Id::Extended(id) => Id::Extended(ExtendedId { raw: id.as_raw() }),
            };
            Some((id, frame.header().len(), frame.raw_data().try_into().unwrap()))
        },
        Err(_) => None,
    }
}

impl StandardId {
    #[verifier::type_invariant]
    spec fn in_range(self) -> bool {
        self.raw <= STANDARD_ID_MAX
    }

    /// The identifier as a number.
    pub closed spec fn view(&self) -> u16 {
        self.raw
    }

    /// Makes an identifier of `raw`, unless it takes more than 11 bits.
    pub fn new(raw: u16) -> (id: Option<StandardId>)
        ensures
            raw <= STANDARD_ID_MAX ==> (id matches Some(id) && id@ == raw),
            raw > STANDARD_ID_MAX ==> id is None,
    {
        match standard_id_new(raw) {
            Some(raw) => Some(StandardId { raw }),
            None => None,
        }
    }

    /// Returns the identifier as a number.
    pub fn as_raw(&self) -> (raw: u16)
        ensures
            raw == self@,
            raw <= STANDARD_ID_MAX,
    {
        proof {
            use_type_invariant(self);
        }
        self.raw
    }
}

impl ExtendedId {
    #[verifier::type_invariant]
    spec fn in_range(self) -> bool {
        self.raw <= EXTENDED_ID_MAX
    }

    /// The identifier as a number.
    pub closed spec fn view(&self) -> u32 {
        self.raw
    }

    /// Makes an identifier of `raw`, unless it takes more than 29 bits.
    pub fn new(raw: u32) -> (id: Option<ExtendedId>)
        ensures
            raw <= EXTENDED_ID_MAX ==> (id matches Some(id) && id@ == raw),
            raw > EXTENDED_ID_MAX ==> id is None,
    {
        match extended_id_new(raw) {
            Some(raw) => Some(ExtendedId { raw }),
            None => None,
        }
    }

    /// Returns the identifier as a number.
    pub fn as_raw(&self) -> (raw: u32)
        ensures
            raw == self@,
            raw <= EXTENDED_ID_MAX,
    {
        proof {
            use_type_invariant(self);
        }
        self.raw
    }
}

impl Id {
    /// The identifier as a kind and a number.
    pub open spec fn view(&self) -> IdView {
        match *self {
            Id::Standard(id) => IdView::Standard(id@),
            Id::Extended(id) => IdView::Extended(id@),
        }
    }
}

impl Frame {
    #[verifier::type_invariant]
    spec fn zero_padded(self) -> bool {
        &&& self.len <= FRAME_DATA_MAX
        &&& forall|i: int| self.len <= i < FRAME_DATA_MAX ==> self.bytes@[i] == 0
    }

    /// The identifier and the payload.
    pub closed spec fn view(&self) -> FrameView {
        FrameView { id: self.id@, data: self.bytes@.subrange(0, self.len as int) }
    }

    /// Makes a data frame of `id` and `data`, unless `data` is longer than eight bytes.
    pub fn new_data(id: Id, data: &[u8]) -> (frame: Option<Frame>)
        ensures
            data@.len() <= FRAME_DATA_MAX ==> (frame matches Some(frame) && frame@ == (FrameView {
                id: id@,
                data: data@,
            })),
            data@.len() > FRAME_DATA_MAX ==> frame is None,
    {
        proof {
            match id {
                Id::Standard(standard) => {
                    use_type_invariant(&standard);
                },
                Id::Extended(extended) => {
                    use_type_invariant(&extended);
                },
            }
        }
        match frame_new_data(id, data) {
            Some((id, len, bytes)) => {
                assert(bytes@.subrange(0, len as int) =~= data@);
                Some(Frame { id, len, bytes })
            },
            None => None,
        }
    }

    /// Returns the identifier.
    pub fn id(&self) -> (id: Id)
        ensures
            id@ == self@.id,
            id@.valid(),
    {
        let id = self.id;
        proof {
            match id {
                Id::Standard(standard) => {
                    use_type_invariant(&standard);
                },
                Id::Extended(extended) => {
                    use_type_invariant(&extended);
                },
            }
        }
        id
    }

    /// Returns the length of the payload.
    pub fn len(&self) -> (len: u8)
        ensures
            len == self@.data.len(),
            len <= FRAME_DATA_MAX,
    {
        proof {
            use_type_invariant(self);
        }
        self.len
    }

    /// Returns the payload.
    pub fn data(&self) -> (data: &[u8])
        ensures
            data@ == self@.data,
            data@.len() <= FRAME_DATA_MAX,
    {
        proof {
            use_type_invariant(self);
        }
        vstd::slice::slice_subrange(self.bytes.as_slice(), 0, self.len as usize)
    }
}

} // verus!
