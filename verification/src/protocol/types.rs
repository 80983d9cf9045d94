//! Control bytes, frame layout and message types of the P3 protocol.
//!
//! Unescaped frame layout:
//!
//! ```text
//! SOR | VERSION | LENGTH (2) | CRC (2) | RESERVED (2) | TYPE (2) | BODY | EOR
//! ```
//!
//! All multi-byte integers are little-endian.

use vstd::prelude::*;

verus! {

/// Start of record: the first byte of every frame.
pub const SOR: u8 = 0x8E;

/// End of record: the last byte of every frame.
pub const EOR: u8 = 0x8F;

/// Escape byte: announces that the next byte was shifted out of the control range.
pub const ESCAPE: u8 = 0x8D;

/// Protocol version carried in every frame.
pub const VERSION: u8 = 0x02;

/// First byte of the range that must be escaped inside a frame.
pub const ESCAPE_RANGE_START: u8 = 0x8A;

/// Last byte of the range that must be escaped inside a frame.
pub const ESCAPE_RANGE_END: u8 = 0x8F;

/// Value added to a byte when it is escaped.
pub const ESCAPE_OFFSET: u8 = 0x20;

/// Offset of SOR in the unescaped frame.
pub const OFFSET_SOR: usize = 0;

/// Offset of VERSION in the unescaped frame.
pub const OFFSET_VERSION: usize = 1;

/// Offset of LENGTH in the unescaped frame.
pub const OFFSET_LENGTH: usize = 2;

/// Offset of CRC in the unescaped frame.
pub const OFFSET_CRC: usize = 4;

/// Offset of RESERVED in the unescaped frame.
pub const OFFSET_RESERVED: usize = 6;

/// Offset of TYPE in the unescaped frame.
pub const OFFSET_TYPE: usize = 8;

/// Offset of the first body byte in the unescaped frame.
pub const OFFSET_BODY: usize = 10;

/// Size of a 16-bit header field.
pub const SIZE_U16_FIELD: usize = 2;

/// Size of the header, SOR through TYPE.
pub const HEADER_SIZE: usize = 10;

/// Smallest frame: a header and EOR.
pub const MIN_FRAME_SIZE: usize = 11;

/// The little-endian value of two bytes.
pub open spec fn le_u16(b0: u8, b1: u8) -> u16 {
    (b0 as int + 256 * (b1 as int)) as u16
}

/// Reads a little-endian 16-bit value.
pub fn u16_from_le(b0: u8, b1: u8) -> (v: u16)
    ensures
        v == le_u16(b0, b1),
        v as int == b0 as int + 256 * (b1 as int),
{
    let lo: u16 = b0 as u16;
    let hi: u16 = b1 as u16;
    lo + 256 * hi
}

/// Low byte of a 16-bit value.
pub open spec fn lo_byte(v: u16) -> u8 {
    (v as int % 256) as u8
}

/// High byte of a 16-bit value.
pub open spec fn hi_byte(v: u16) -> u8 {
    (v as int / 256) as u8
}

/// Splits a 16-bit value into its little-endian bytes.
pub fn u16_to_le(v: u16) -> (b: (u8, u8))
    ensures
        b.0 == lo_byte(v),
        b.1 == hi_byte(v),
        le_u16(b.0, b.1) == v,
{
    let lo: u8 = (v % 256) as u8;
    let hi: u8 = (v / 256) as u8;
    (lo, hi)
}

/// Type of record carried in the TYPE header field.
#[derive(Debug, Clone, Copy, PartialEq, Eq, Structural)]
pub enum MessageType {
    /// A transponder crossed a timing loop.
    Passing,
    /// Decoder health report.
    Status,
    /// Hardware and firmware identification.
    Version,
    /// Request to retransmit; recognised, never issued.
    Resend,
}

/// The TYPE value that stands for a message type.
pub open spec fn message_type_code(t: MessageType) -> u16 {
    match t {
        MessageType::Passing => 0x0001,
        MessageType::Status => 0x0002,
        MessageType::Version => 0x0003,
        MessageType::Resend => 0x0004,
    }
}

/// The message type that a TYPE value stands for, if any.
pub open spec fn message_type_of(value: u16) -> Option<MessageType> {
    if value == 0x0001 {
        Some(MessageType::Passing)
    } else if value == 0x0002 {
        Some(MessageType::Status)
    } else if value == 0x0003 {
        Some(MessageType::Version)
    } else if value == 0x0004 {
        Some(MessageType::Resend)
    } else {
        None
    }
}

impl MessageType {
    /// The TYPE value of this message type.
    pub fn to_u16(self) -> (v: u16)
        ensures
            v == message_type_code(self),
            message_type_of(v) == Some(self),
    {
        match self {
            MessageType::Passing => 0x0001,
            MessageType::Status => 0x0002,
            MessageType::Version => 0x0003,
            MessageType::Resend => 0x0004,
        }
    }

    /// Decodes a TYPE value; `None` for a value outside the four known types.
    pub fn from_u16(value: u16) -> (t: Option<MessageType>)
        ensures
            t == message_type_of(value),
            t is Some <==> 1 <= value <= 4,
            t matches Some(m) ==> message_type_code(m) == value,
    {
        if value == 0x0001 {
            Some(MessageType::Passing)
        } else if value == 0x0002 {
            Some(MessageType::Status)
        } else if value == 0x0003 {
            Some(MessageType::Version)
        } else if value == 0x0004 {
            Some(MessageType::Resend)
        } else {
            None
        }
    }

    /// Decodes a TYPE value, reporting the rejected value on failure.
    pub fn try_from_u16(value: u16) -> (r: Result<MessageType, InvalidMessageType>)
        ensures
            r == match message_type_of(value) {
                Some(t) => Ok::<MessageType, InvalidMessageType>(t),
                None => Err::<MessageType, InvalidMessageType>(InvalidMessageType(value)),
            },
    {
        match MessageType::from_u16(value) {
            Some(t) => Ok(t),
            None => Err(InvalidMessageType(value)),
        }
    }
}

/// A TYPE value that names no message type.
#[derive(Debug, Clone, Copy, PartialEq, Eq, Structural)]
pub struct InvalidMessageType(pub u16);

impl TryFrom<u16> for MessageType {
    type Error = InvalidMessageType;

    fn try_from(value: u16) -> (r: Result<MessageType, InvalidMessageType>) {
        MessageType::try_from_u16(value)
    }
}

impl vstd::std_specs::convert::TryFromSpecImpl<u16> for MessageType {
    open spec fn obeys_try_from_spec() -> bool {
        true
    }

    open spec fn try_from_spec(value: u16) -> Result<MessageType, InvalidMessageType> {
        match message_type_of(value) {
            Some(t) => Ok(t),
            None => Err(InvalidMessageType(value)),
        }
    }
}

impl From<MessageType> for u16 {
    fn from(msg_type: MessageType) -> (v: u16) {
        msg_type.to_u16()
    }
}

impl vstd::std_specs::convert::FromSpecImpl<MessageType> for u16 {
    open spec fn obeys_from_spec() -> bool {
        true
    }

    open spec fn from_spec(msg_type: MessageType) -> u16 {
        message_type_code(msg_type)
    }
}

} // verus!
