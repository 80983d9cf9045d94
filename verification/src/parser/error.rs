//! Errors of frame and message parsing.

use vstd::prelude::*;
use crate::protocol::error::{CrcError, EscapeError};

verus! {

/// Why a wire frame did not yield a message.
#[allow(inconsistent_fields)]
#[derive(Debug, Clone, Copy, PartialEq, Eq, Structural)]
pub enum ParseError {
    /// Fewer bytes than the smallest frame holds.
    IncompleteMessage { expected: usize, actual: usize },
    /// The first byte is not SOR.
    MissingSor,
    /// The VERSION byte is not the supported one; carries the byte found.
    UnsupportedVersion(u8),
    /// The checksum of the frame could not be computed.
    CrcError(CrcError),
    /// The frame could not be unescaped.
    EscapeError(EscapeError),
    /// The TYPE field names no message this parser yields.
    UnknownMessageType(u16),
    /// The LENGTH field differs from the unescaped length of the frame.
    LengthMismatch { declared: u16, actual: usize },
    /// The last byte of the unescaped frame is not EOR.
    MissingEor,
    /// The TLV field that starts at `position` of the body is cut short: its
    /// length byte is missing or its value runs past the end of the body.
    IncompleteTlv { position: usize },
    /// A field that the message type requires is absent or malformed.
    TlvMissingRequired { tag: u8 },
}

} // verus!
