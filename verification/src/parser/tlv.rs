//! Tag-length-value fields of a message body.
//!
//! A body is a run of fields, each a tag byte, a length byte and as many
//! value bytes as the length says.

use vstd::prelude::*;
use vstd::slice::{slice_subrange, slice_to_vec};
use crate::parser::error::ParseError;

verus! {

/// One decoded field.
#[derive(Debug, PartialEq)]
pub struct TlvField {
    pub tag: u8,
    pub value: Vec<u8>,
}

impl Clone for TlvField {
    fn clone(&self) -> (r: Self)
        ensures
            r@ == self@,
    {
        TlvField { tag: self.tag, value: slice_to_vec(self.value.as_slice()) }
    }
}

/// A field as a mathematical value.
pub struct TlvItem {
    pub tag: u8,
    pub value: Seq<u8>,
}

impl View for TlvField {
    type V = TlvItem;

    open spec fn view(&self) -> TlvItem {
        TlvItem { tag: self.tag, value: self.value@ }
    }
}

/// The fields of a vector as mathematical values.
pub open spec fn items_of(fields: Seq<TlvField>) -> Seq<TlvItem> {
    fields.map_values(|f: TlvField| f@)
}

/// Puts a field in front of the decoding of the rest.
pub open spec fn tlv_prepend(item: TlvItem, rest: Result<Seq<TlvItem>, ParseError>) -> Result<
    Seq<TlvItem>,
    ParseError,
> {
    match rest {
        Ok(r) => Ok(seq![item] + r),
        Err(e) => Err(e),
    }
}

/// The fields that a body holds, read front to back; `at` is the position of
/// `body[0]` in the whole body. The first field that is cut short fails the
/// whole with its position.
pub open spec fn tlv_decoded(body: Seq<u8>, at: nat) -> Result<Seq<TlvItem>, ParseError>
    decreases body.len(),
{
    if body.len() == 0 {
        Ok(Seq::<TlvItem>::empty())
    } else if body.len() < 2 || body.len() < 2 + body[1] {
        Err(ParseError::IncompleteTlv { position: at as usize })
    } else {
        let end = 2 + body[1] as int;
        tlv_prepend(
            TlvItem { tag: body[0], value: body.subrange(2, end) },
            tlv_decoded(body.skip(end), at + end as nat),
        )
    }
}

/// A 32-bit value from exactly four little-endian bytes.
pub open spec fn le_u32_of(s: Seq<u8>) -> Option<u32> {
    if s.len() == 4 {
        Some(
            (s[0] as int + 256 * (s[1] as int) + 65536 * (s[2] as int) + 16777216 * (
            s[3] as int)) as u32,
        )
    } else {
        None
    }
}

/// A 16-bit value from exactly two little-endian bytes.
pub open spec fn le_u16_of(s: Seq<u8>) -> Option<u16> {
    if s.len() == 2 {
        Some((s[0] as int + 256 * (s[1] as int)) as u16)
    } else {
        None
    }
}

/// A 64-bit value from exactly eight little-endian bytes.
pub open spec fn le_u64_of(s: Seq<u8>) -> Option<u64> {
    if s.len() == 8 {
        Some(
            (s[0] as int + 0x100 * (s[1] as int) + 0x1_0000 * (s[2] as int) + 0x100_0000 * (
            s[3] as int) + 0x1_0000_0000 * (s[4] as int) + 0x100_0000_0000 * (s[5] as int)
                + 0x1_0000_0000_0000 * (s[6] as int) + 0x100_0000_0000_0000 * (s[7] as int)) as u64,
        )
    } else {
        None
    }
}

/// Decoder of message bodies.
pub struct TlvDecoder {}

impl TlvDecoder {
    pub fn new() -> (d: Self) {
        TlvDecoder {  }
    }

    /// Decodes every field of a body. Fails with `IncompleteTlv` at the first
    /// field whose length byte is missing or whose value runs past the end.
    pub fn decode(&self, data: &[u8]) -> (r: Result<Vec<TlvField>, ParseError>)
        ensures
            match r {
                Ok(fields) => tlv_decoded(data@, 0) == Ok::<Seq<TlvItem>, ParseError>(
                    items_of(fields@),
                ),
                Err(e) => tlv_decoded(data@, 0) == Err::<Seq<TlvItem>, ParseError>(e),
            },
    {
        let mut fields: Vec<TlvField> = Vec::new();
        let mut pos: usize = 0;
        proof {
            assert(data@.skip(0) == data@);
            assert forall|rest: Seq<TlvItem>| items_of(fields@) + rest == rest by {
                assert(items_of(fields@) + rest =~= rest);
            }
        }
        while pos < data.len()
            invariant
                pos <= data.len(),
                tlv_decoded(data@, 0) == match tlv_decoded(data@.skip(pos as int), pos as nat) {
                    Ok(rest) => Ok::<Seq<TlvItem>, ParseError>(items_of(fields@) + rest),
                    Err(e) => Err::<Seq<TlvItem>, ParseError>(e),
                },
            decreases data.len() - pos,
        {
            let ghost rest = data@.skip(pos as int);
            let ghost before = items_of(fields@);
            if data.len() - pos < 2 {
                return Err(ParseError::IncompleteTlv { position: pos });
            }
            let tag = data[pos];
            let length = data[pos + 1] as usize;
            assert(rest[0] == tag);
            assert(rest[1] == data@[pos + 1]);
            if data.len() - pos - 2 < length {
                return Err(ParseError::IncompleteTlv { position: pos });
            }
            let start = pos + 2;
            let end = start + length;
            let value = slice_to_vec(slice_subrange(data, start, end));
            let field = TlvField { tag, value };
            proof {
                assert(rest.subrange(2, 2 + length) == data@.subrange(start as int, end as int));
                assert(rest.skip(2 + length) == data@.skip(end as int));
                assert(field@ == TlvItem { tag: rest[0], value: rest.subrange(2, 2 + length) });
            }
            fields.push(field);
            proof {
                assert(items_of(fields@) =~= before.push(field@));
                assert forall|tail: Seq<TlvItem>|
                    before + (seq![field@] + tail) == items_of(fields@) + tail by {
                    assert(before + (seq![field@] + tail) =~= items_of(fields@) + tail);
                }
            }
            pos = end;
        }
        proof {
            assert(data@.skip(pos as int).len() == 0);
            assert(items_of(fields@) + Seq::<TlvItem>::empty() == items_of(fields@));
        }
        Ok(fields)
    }

    /// Reads a value of exactly four bytes as a little-endian `u32`.
    pub fn decode_u32(bytes: &[u8]) -> (r: Option<u32>)
        ensures
            r == le_u32_of(bytes@),
    {
        if bytes.len() == 4 {
            let b0 = bytes[0] as u32;
            let b1 = bytes[1] as u32;
            let b2 = bytes[2] as u32;
            let b3 = bytes[3] as u32;
            Some(b0 + 256 * b1 + 65536 * b2 + 16777216 * b3)
        } else {
            None
        }
    }

    /// Reads a value of exactly two bytes as a little-endian `u16`.
    pub fn decode_u16(bytes: &[u8]) -> (r: Option<u16>)
        ensures
            r == le_u16_of(bytes@),
    {
        if bytes.len() == 2 {
            let b0 = bytes[0] as u16;
            let b1 = bytes[1] as u16;
            Some(b0 + 256 * b1)
        } else {
            None
        }
    }

    /// Reads a value of exactly eight bytes as a little-endian `u64`.
    pub fn decode_u64(bytes: &[u8]) -> (r: Option<u64>)
        ensures
            r == le_u64_of(bytes@),
    {
        if bytes.len() == 8 {
            let b0 = bytes[0] as u64;
            let b1 = bytes[1] as u64;
            let b2 = bytes[2] as u64;
            let b3 = bytes[3] as u64;
            let b4 = bytes[4] as u64;
            let b5 = bytes[5] as u64;
            let b6 = bytes[6] as u64;
            let b7 = bytes[7] as u64;
            Some(
                b0 + 0x100 * b1 + 0x1_0000 * b2 + 0x100_0000 * b3 + 0x1_0000_0000 * b4
                    + 0x100_0000_0000 * b5 + 0x1_0000_0000_0000 * b6 + 0x100_0000_0000_0000 * b7,
            )
        } else {
            None
        }
    }
}

impl Default for TlvDecoder {
    fn default() -> (d: Self) {
        TlvDecoder::new()
    }
}

} // verus!
