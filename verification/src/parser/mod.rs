//! Parsing of P3 wire frames into typed decoder messages.

pub mod error;
pub mod tlv;
pub mod messages;
pub mod frame;
pub mod stream;

use vstd::prelude::*;
use crate::parser::error::ParseError;
use crate::parser::frame::{frame_parsed, FrameParser};
use crate::parser::messages::{
    passing_from_items,
    status_from_items,
    version_from_items,
    Message,
    MessageView,
    PassingMessage,
    StatusMessage,
    VersionMessage,
};
use crate::parser::tlv::{tlv_decoded, TlvDecoder, TlvItem};
use crate::protocol::types::MessageType;

verus! {

/// The outcome of parsing as a mathematical value.
pub open spec fn outcome_view(r: Result<Message, ParseError>) -> Result<MessageView, ParseError> {
    match r {
        Ok(m) => Ok(m@),
        Err(e) => Err(e),
    }
}

/// The message that a field list of a given type stands for. A resend
/// request is a known type that yields no message.
pub open spec fn message_from_items(message_type: MessageType, items: Seq<TlvItem>) -> Result<
    MessageView,
    ParseError,
> {
    match message_type {
        MessageType::Passing => match passing_from_items(items) {
            Ok(m) => Ok(MessageView::Passing(m)),
            Err(e) => Err(e),
        },
        MessageType::Status => match status_from_items(items) {
            Ok(m) => Ok(MessageView::Status(m)),
            Err(e) => Err(e),
        },
        MessageType::Version => match version_from_items(items) {
            Ok(m) => Ok(MessageView::Version(m)),
            Err(e) => Err(e),
        },
        MessageType::Resend => Err(ParseError::UnknownMessageType(0x0004)),
    }
}

/// The message that a wire frame stands for: the frame is parsed, its body
/// decoded into fields, and the fields read according to the frame's type.
pub open spec fn message_parsed(wire: Seq<u8>) -> Result<MessageView, ParseError> {
    match frame_parsed(wire) {
        Err(e) => Err(e),
        Ok(frame) => match tlv_decoded(frame.body, 0) {
            Err(e) => Err(e),
            Ok(items) => message_from_items(frame.message_type, items),
        },
    }
}

/// Parser of complete wire frames into messages.
pub struct Parser {
    frame_parser: FrameParser,
    tlv_decoder: TlvDecoder,
}

impl Parser {
    pub fn new() -> (p: Self) {
        Parser { frame_parser: FrameParser::new(), tlv_decoder: TlvDecoder::new() }
    }

    /// Parses one complete wire frame, SOR and EOR included, into a message.
    pub fn parse(&self, data: &[u8]) -> (r: Result<Message, ParseError>)
        ensures
            outcome_view(r) == message_parsed(data@),
    {
        let frame = match self.frame_parser.parse(data) {
            Ok(f) => f,
            Err(e) => {
                return Err(e);
            },
        };
        let fields = match self.tlv_decoder.decode(frame.body.as_slice()) {
            Ok(f) => f,
            Err(e) => {
                return Err(e);
            },
        };
        match frame.message_type {
            MessageType::Passing => match PassingMessage::from_tlv_fields(fields.as_slice()) {
                Ok(m) => Ok(Message::Passing(m)),
                Err(e) => Err(e),
            },
            MessageType::Status => match StatusMessage::from_tlv_fields(fields.as_slice()) {
                Ok(m) => Ok(Message::Status(m)),
                Err(e) => Err(e),
            },
            MessageType::Version => match VersionMessage::from_tlv_fields(fields.as_slice()) {
                Ok(m) => Ok(Message::Version(m)),
                Err(e) => Err(e),
            },
            MessageType::Resend => Err(
                ParseError::UnknownMessageType(MessageType::Resend.to_u16()),
            ),
        }
    }
}

impl Default for Parser {
    fn default() -> (p: Self) {
        Parser::new()
    }
}

} // verus!
