//! Parsing of one wire frame into its header fields and body.

use vstd::prelude::*;
use vstd::slice::{slice_subrange, slice_to_vec};
use crate::parser::error::ParseError;
use crate::protocol::crc::{frame_crc_valid, validate_crc};
use crate::protocol::error::{CrcError, EscapeError};
use crate::protocol::escape::{unescape_data, unescaped};
use crate::protocol::types::{
    le_u16,
    message_type_of,
    u16_from_le,
    MessageType,
    EOR,
    MIN_FRAME_SIZE,
    OFFSET_BODY,
    OFFSET_CRC,
    OFFSET_LENGTH,
    OFFSET_RESERVED,
    OFFSET_SOR,
    OFFSET_TYPE,
    OFFSET_VERSION,
    SOR,
    VERSION,
};

verus! {

/// A parsed frame: header fields and the unescaped body.
#[derive(Debug, PartialEq)]
pub struct Frame {
    pub message_type: MessageType,
    /// Unescaped body, a run of TLV fields.
    pub body: Vec<u8>,
    /// The CRC that the frame carries.
    pub crc: u16,
    pub reserved: u16,
}

/// A frame as a mathematical value.
pub struct FrameModel {
    pub message_type: MessageType,
    pub body: Seq<u8>,
    pub crc: u16,
    pub reserved: u16,
}

impl View for Frame {
    type V = FrameModel;

    open spec fn view(&self) -> FrameModel {
        FrameModel {
            message_type: self.message_type,
            body: self.body@,
            crc: self.crc,
            reserved: self.reserved,
        }
    }
}

impl Clone for Frame {
    fn clone(&self) -> (r: Self)
        ensures
            r@ == self@,
    {
        Frame {
            message_type: self.message_type,
            body: slice_to_vec(self.body.as_slice()),
            crc: self.crc,
            reserved: self.reserved,
        }
    }
}

/// The frame that an unescaped byte sequence holds. The checks come in this
/// order: size, TYPE, LENGTH against the real length, EOR at the end.
pub open spec fn frame_of_unescaped(u: Seq<u8>) -> Result<FrameModel, ParseError> {
    if u.len() < 11 {
        Err(ParseError::IncompleteMessage { expected: 11, actual: u.len() as usize })
    } else {
        let declared = le_u16(u[2], u[3]);
        let type_raw = le_u16(u[8], u[9]);
        match message_type_of(type_raw) {
            None => Err(ParseError::UnknownMessageType(type_raw)),
            Some(message_type) => if u.len() != declared {
                Err(ParseError::LengthMismatch { declared, actual: u.len() as usize })
            } else if u[u.len() - 1] != 0x8Fu8 {
                Err(ParseError::MissingEor)
            } else {
                Ok(
                    FrameModel {
                        message_type,
                        body: u.subrange(10, u.len() - 1),
                        crc: le_u16(u[4], u[5]),
                        reserved: le_u16(u[6], u[7]),
                    },
                )
            },
        }
    }
}

/// The frame that a wire byte sequence holds. The checks on the wire form
/// come first: size, SOR, VERSION, that a checksum can be computed, that the
/// escapes are well formed. A checksum that differs from the carried one
/// does not reject the frame: the carried value is handed on in the frame.
pub open spec fn frame_parsed(wire: Seq<u8>) -> Result<FrameModel, ParseError> {
    if wire.len() < 11 {
        Err(ParseError::IncompleteMessage { expected: 11, actual: wire.len() as usize })
    } else if wire[0] != 0x8Eu8 {
        Err(ParseError::MissingSor)
    } else if wire[1] != 0x02u8 {
        Err(ParseError::UnsupportedVersion(wire[1]))
    } else {
        match frame_crc_valid(wire) {
            Err(e) => Err(ParseError::CrcError(e)),
            Ok(_) => match unescaped(wire) {
                Err(e) => Err(ParseError::EscapeError(e)),
                Ok(u) => frame_of_unescaped(u),
            },
        }
    }
}

/// Parser of single frames.
pub struct FrameParser {}

impl FrameParser {
    pub fn new() -> (p: Self) {
        FrameParser {  }
    }

    /// Parses one complete wire frame, SOR and EOR included.
    pub fn parse(&self, data: &[u8]) -> (r: Result<Frame, ParseError>)
        ensures
            match r {
                Ok(frame) => frame_parsed(data@) == Ok::<FrameModel, ParseError>(frame@),
                Err(e) => frame_parsed(data@) == Err::<FrameModel, ParseError>(e),
            },
    {
        if data.len() < MIN_FRAME_SIZE {
            return Err(
                ParseError::IncompleteMessage { expected: MIN_FRAME_SIZE, actual: data.len() },
            );
        }
        if data[OFFSET_SOR] != SOR {
            return Err(ParseError::MissingSor);
        }
        if data[OFFSET_VERSION] != VERSION {
            return Err(ParseError::UnsupportedVersion(data[OFFSET_VERSION]));
        }
        match validate_crc(data) {
            Ok(_) => {},
            Err(e) => {
                return Err(ParseError::CrcError(e));
            },
        }
        let unescaped = match unescape_data(data) {
            Ok(u) => u,
            Err(e) => {
                return Err(ParseError::EscapeError(e));
            },
        };
        if unescaped.len() < MIN_FRAME_SIZE {
            return Err(
                ParseError::IncompleteMessage { expected: MIN_FRAME_SIZE, actual: unescaped.len() },
            );
        }
        let length = u16_from_le(unescaped[OFFSET_LENGTH], unescaped[OFFSET_LENGTH + 1]);
        let crc = u16_from_le(unescaped[OFFSET_CRC], unescaped[OFFSET_CRC + 1]);
        let reserved = u16_from_le(unescaped[OFFSET_RESERVED], unescaped[OFFSET_RESERVED + 1]);
        let message_type_raw = u16_from_le(unescaped[OFFSET_TYPE], unescaped[OFFSET_TYPE + 1]);
        let message_type = match MessageType::from_u16(message_type_raw) {
            Some(t) => t,
            None => {
                return Err(ParseError::UnknownMessageType(message_type_raw));
            },
        };
        if unescaped.len() != length as usize {
            return Err(
                ParseError::LengthMismatch { declared: length, actual: unescaped.len() },
            );
        }
        let eor_pos = unescaped.len() - 1;
        if unescaped[eor_pos] != EOR {
            return Err(ParseError::MissingEor);
        }
        let body = slice_to_vec(slice_subrange(unescaped.as_slice(), OFFSET_BODY, eor_pos));
        Ok(Frame { message_type, body, crc, reserved })
    }
}

impl Default for FrameParser {
    fn default() -> (p: Self) {
        FrameParser::new()
    }
}

} // verus!
