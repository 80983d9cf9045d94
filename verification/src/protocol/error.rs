//! Errors of the wire codec.

use vstd::prelude::*;

verus! {

/// Why a byte sequence could not be unescaped.
#[derive(Debug, Clone, Copy, PartialEq, Eq, Structural)]
pub enum EscapeError {
    /// The escape byte is the last byte of the data.
    IncompleteSequence,
    /// The escape byte is followed by a byte outside 0xAA..=0xAF.
    InvalidSequence(u8),
}

/// Why the CRC of a frame could not be computed or did not match.
#[allow(inconsistent_fields)]
#[derive(Debug, Clone, Copy, PartialEq, Eq, Structural)]
pub enum CrcError {
    /// The CRC carried by the frame differs from the computed one.
    ValidationFailed { expected: u16, actual: u16 },
    /// The data cannot hold a CRC field.
    DataTooShort(usize),
    /// An escape byte at `position` is followed by a byte outside 0xAA..=0xAF.
    MalformedEscape { position: usize, next_byte: u8 },
    /// The unescaped frame ends before the CRC field does.
    MessageTooShort { actual: usize, min: usize },
}

} // verus!
