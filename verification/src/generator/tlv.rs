//! Encoding of TLV fields, the counterpart of the body decoder.
//!
//! A field is a tag byte, a length byte and the value; integers are written
//! little-endian.

use vstd::prelude::*;
use vstd::arithmetic::div_mod::lemma_div_denominator;
use crate::parser::error::ParseError;
use crate::parser::messages::le_i16_of;
use crate::parser::tlv::{
    le_u16_of,
    le_u32_of,
    le_u64_of,
    tlv_decoded,
    TlvItem,
};

verus! {

/// Why a field could not be encoded.
#[derive(Debug, Clone, Copy, PartialEq, Eq, Structural)]
pub enum TlvError {
    /// The value has more bytes than the length byte can say.
    ValueTooLong { actual: usize, max: usize },
}

/// The two little-endian bytes of a 16-bit value.
pub open spec fn le_bytes_u16(v: u16) -> Seq<u8> {
    seq![(v as int % 256) as u8, (v as int / 256) as u8]
}

/// The two little-endian bytes of a signed 16-bit value, in two's
/// complement.
pub open spec fn le_bytes_i16(v: i16) -> Seq<u8> {
    le_bytes_u16(
        if v >= 0 {
            v as u16
        } else {
            (v as int + 65536) as u16
        },
    )
}

/// The four little-endian bytes of a 32-bit value.
pub open spec fn le_bytes_u32(v: u32) -> Seq<u8> {
    seq![
        (v as int % 256) as u8,
        (v as int / 0x100 % 256) as u8,
        (v as int / 0x1_0000 % 256) as u8,
        (v as int / 0x100_0000) as u8,
    ]
}

/// The eight little-endian bytes of a 64-bit value.
pub open spec fn le_bytes_u64(v: u64) -> Seq<u8> {
    seq![
        (v as int % 256) as u8,
        (v as int / 0x100 % 256) as u8,
        (v as int / 0x1_0000 % 256) as u8,
        (v as int / 0x100_0000 % 256) as u8,
        (v as int / 0x1_0000_0000 % 256) as u8,
        (v as int / 0x100_0000_0000 % 256) as u8,
        (v as int / 0x1_0000_0000_0000 % 256) as u8,
        (v as int / 0x100_0000_0000_0000) as u8,
    ]
}

/// The bytes of one field: tag, length, value.
pub open spec fn field_bytes(tag: u8, value: Seq<u8>) -> Seq<u8>
    recommends
        value.len() <= 255,
{
    seq![tag, value.len() as u8] + value
}

/// The body that a field list encodes to.
pub open spec fn tlv_encoded(items: Seq<TlvItem>) -> Seq<u8>
    decreases items.len(),
{
    if items.len() == 0 {
        Seq::empty()
    } else {
        field_bytes(items[0].tag, items[0].value) + tlv_encoded(items.skip(1))
    }
}

/// Whether every value of a field list fits the length byte.
pub open spec fn values_fit(items: Seq<TlvItem>) -> bool {
    forall|i: int| 0 <= i < items.len() ==> items[i].value.len() <= 255
}

/// Encodes a one-byte field.
pub fn encode_u8(tag: u8, value: u8) -> (out: Vec<u8>)
    ensures
        out@ == field_bytes(tag, seq![value]),
{
    let mut out: Vec<u8> = Vec::new();
    out.push(tag);
    out.push(1);
    out.push(value);
    assert(out@ =~= field_bytes(tag, seq![value]));
    out
}

/// Encodes a 16-bit field.
pub fn encode_u16(tag: u8, value: u16) -> (out: Vec<u8>)
    ensures
        out@ == field_bytes(tag, le_bytes_u16(value)),
        le_u16_of(le_bytes_u16(value)) == Some(value),
{
    let mut out: Vec<u8> = Vec::new();
    out.push(tag);
    out.push(2);
    out.push((value % 256) as u8);
    out.push((value / 256) as u8);
    assert(out@ =~= field_bytes(tag, le_bytes_u16(value)));
    out
}

/// Encodes a signed 16-bit field.
pub fn encode_i16(tag: u8, value: i16) -> (out: Vec<u8>)
    ensures
        out@ == field_bytes(tag, le_bytes_i16(value)),
        le_i16_of(le_bytes_i16(value)) == Some(value),
{
    let raw: u16 = if value >= 0 {
        value as u16
    } else {
        (value as i32 + 65536) as u16
    };
    let mut out: Vec<u8> = Vec::new();
    out.push(tag);
    out.push(2);
    out.push((raw % 256) as u8);
    out.push((raw / 256) as u8);
    assert(out@ =~= field_bytes(tag, le_bytes_i16(value)));
    out
}

/// Encodes a 32-bit field.
pub fn encode_u32(tag: u8, value: u32) -> (out: Vec<u8>)
    ensures
        out@ == field_bytes(tag, le_bytes_u32(value)),
        le_u32_of(le_bytes_u32(value)) == Some(value),
{
    let mut out: Vec<u8> = Vec::new();
    out.push(tag);
    out.push(4);
    out.push((value % 256) as u8);
    out.push((value / 0x100 % 256) as u8);
    out.push((value / 0x1_0000 % 256) as u8);
    out.push((value / 0x100_0000) as u8);
    assert(out@ =~= field_bytes(tag, le_bytes_u32(value)));
    out
}

/// The two little-endian bytes of a 16-bit value read back give the value.
pub proof fn lemma_le_bytes_u16_round_trip(value: u16)
    ensures
        le_u16_of(le_bytes_u16(value)) == Some(value),
        le_bytes_u16(value).len() == 2,
{
}

/// The two little-endian bytes of a signed 16-bit value read back give the
/// value.
pub proof fn lemma_le_bytes_i16_round_trip(value: i16)
    ensures
        le_i16_of(le_bytes_i16(value)) == Some(value),
        le_bytes_i16(value).len() == 2,
{
}

/// The four little-endian bytes of a 32-bit value read back give the value.
pub proof fn lemma_le_bytes_u32_round_trip(value: u32)
    ensures
        le_u32_of(le_bytes_u32(value)) == Some(value),
        le_bytes_u32(value).len() == 4,
{
}

/// The eight little-endian bytes of a 64-bit value read back give the value.
pub proof fn lemma_le_bytes_u64_round_trip(value: u64)
    ensures
        le_u64_of(le_bytes_u64(value)) == Some(value),
        le_bytes_u64(value).len() == 8,
{
    let v = value as int;
    let q1 = v / 0x100;
    let q2 = q1 / 0x100;
    let q3 = q2 / 0x100;
    let q4 = q3 / 0x100;
    let q5 = q4 / 0x100;
    let q6 = q5 / 0x100;
    let q7 = q6 / 0x100;
    lemma_div_denominator(v, 0x100, 0x100);
    lemma_div_denominator(v, 0x1_0000, 0x100);
    lemma_div_denominator(v, 0x100_0000, 0x100);
    lemma_div_denominator(v, 0x1_0000_0000, 0x100);
    lemma_div_denominator(v, 0x100_0000_0000, 0x100);
    lemma_div_denominator(v, 0x1_0000_0000_0000, 0x100);
    assert(q2 == v / 0x1_0000);
    assert(q3 == v / 0x100_0000);
    assert(q4 == v / 0x1_0000_0000);
    assert(q5 == v / 0x100_0000_0000);
    assert(q6 == v / 0x1_0000_0000_0000);
    assert(q7 == v / 0x100_0000_0000_0000);
    assert(v == v % 256 + 0x100 * q1);
    assert(q1 == q1 % 256 + 0x100 * q2);
    assert(q2 == q2 % 256 + 0x100 * q3);
    assert(q3 == q3 % 256 + 0x100 * q4);
    assert(q4 == q4 % 256 + 0x100 * q5);
    assert(q5 == q5 % 256 + 0x100 * q6);
    assert(q6 == q6 % 256 + 0x100 * q7);
    assert(q7 < 256);
    let s = le_bytes_u64(value);
    assert(s.len() == 8);
    assert(s[0] == (v % 256) as u8);
    assert(s[1] == (q1 % 256) as u8);
    assert(s[2] == (q2 % 256) as u8);
    assert(s[3] == (q3 % 256) as u8);
    assert(s[4] == (q4 % 256) as u8);
    assert(s[5] == (q5 % 256) as u8);
    assert(s[6] == (q6 % 256) as u8);
    assert(s[7] == q7 as u8);
}

/// Encodes a 64-bit field.
pub fn encode_u64(tag: u8, value: u64) -> (out: Vec<u8>)
    ensures
        out@ == field_bytes(tag, le_bytes_u64(value)),
        le_u64_of(le_bytes_u64(value)) == Some(value),
{
    proof {
        lemma_le_bytes_u64_round_trip(value);
    }
    let mut out: Vec<u8> = Vec::new();
    out.push(tag);
    out.push(8);
    out.push((value % 256) as u8);
    out.push((value / 0x100 % 256) as u8);
    out.push((value / 0x1_0000 % 256) as u8);
    out.push((value / 0x100_0000 % 256) as u8);
    out.push((value / 0x1_0000_0000 % 256) as u8);
    out.push((value / 0x100_0000_0000 % 256) as u8);
    out.push((value / 0x1_0000_0000_0000 % 256) as u8);
    out.push((value / 0x100_0000_0000_0000) as u8);
    assert(out@ =~= field_bytes(tag, le_bytes_u64(value)));
    out
}

/// Encodes a field of raw bytes. Fails with `ValueTooLong` when the value
/// has more than 255 bytes.
pub fn encode_bytes(tag: u8, value: &[u8]) -> (r: Result<Vec<u8>, TlvError>)
    ensures
        r matches Ok(out) ==> value@.len() <= 255 && out@ == field_bytes(tag, value@),
        r matches Err(e) ==> value@.len() > 255 && e == (TlvError::ValueTooLong {
            actual: value@.len() as usize,
            max: 255,
        }),
{
    if value.len() > 255 {
        return Err(TlvError::ValueTooLong { actual: value.len(), max: 255 });
    }
    let mut out: Vec<u8> = Vec::new();
    out.push(tag);
    out.push(value.len() as u8);
    out.extend_from_slice(value);
    assert(out@ =~= field_bytes(tag, value@));
    Ok(out)
}

/// Builder of message bodies: fields are appended in the order added.
#[derive(Debug)]
pub struct TlvBuilder {
    data: Vec<u8>,
}

impl View for TlvBuilder {
    type V = Seq<u8>;

    /// The bytes collected so far.
    closed spec fn view(&self) -> Seq<u8> {
        self.data@
    }
}

impl TlvBuilder {
    /// A builder without fields.
    pub fn new() -> (b: Self)
        ensures
            b@ == Seq::<u8>::empty(),
    {
        TlvBuilder { data: Vec::new() }
    }

    /// Appends a one-byte field.
    pub fn add_u8(self, tag: u8, value: u8) -> (b: Self)
        ensures
            b@ == self@ + field_bytes(tag, seq![value]),
    {
        let mut data = self.data;
        let field = encode_u8(tag, value);
        data.extend_from_slice(field.as_slice());
        assert(data@ =~= self.data@ + field@);
        TlvBuilder { data }
    }

    /// Appends a 16-bit field.
    pub fn add_u16(self, tag: u8, value: u16) -> (b: Self)
        ensures
            b@ == self@ + field_bytes(tag, le_bytes_u16(value)),
    {
        let mut data = self.data;
        let field = encode_u16(tag, value);
        data.extend_from_slice(field.as_slice());
        assert(data@ =~= self.data@ + field@);
        TlvBuilder { data }
    }

    /// Appends a signed 16-bit field.
    pub fn add_i16(self, tag: u8, value: i16) -> (b: Self)
        ensures
            b@ == self@ + field_bytes(tag, le_bytes_i16(value)),
    {
        let mut data = self.data;
        let field = encode_i16(tag, value);
        data.extend_from_slice(field.as_slice());
        assert(data@ =~= self.data@ + field@);
        TlvBuilder { data }
    }

    /// Appends a 32-bit field.
    pub fn add_u32(self, tag: u8, value: u32) -> (b: Self)
        ensures
            b@ == self@ + field_bytes(tag, le_bytes_u32(value)),
    {
        let mut data = self.data;
        let field = encode_u32(tag, value);
        data.extend_from_slice(field.as_slice());
        assert(data@ =~= self.data@ + field@);
        TlvBuilder { data }
    }

    /// Appends a 64-bit field.
    pub fn add_u64(self, tag: u8, value: u64) -> (b: Self)
        ensures
            b@ == self@ + field_bytes(tag, le_bytes_u64(value)),
    {
        let mut data = self.data;
        let field = encode_u64(tag, value);
        data.extend_from_slice(field.as_slice());
        assert(data@ =~= self.data@ + field@);
        TlvBuilder { data }
    }

    /// Appends a field of raw bytes. Fails with `ValueTooLong` when the
    /// value has more than 255 bytes.
    pub fn add_bytes(self, tag: u8, value: &[u8]) -> (r: Result<Self, TlvError>)
        ensures
            r matches Ok(b) ==> value@.len() <= 255 && b@ == self@ + field_bytes(tag, value@),
            r matches Err(e) ==> value@.len() > 255 && e == (TlvError::ValueTooLong {
                actual: value@.len() as usize,
                max: 255,
            }),
    {
        let field = match encode_bytes(tag, value) {
            Ok(f) => f,
            Err(e) => {
                return Err(e);
            },
        };
        let mut data = self.data;
        data.extend_from_slice(field.as_slice());
        assert(data@ =~= self.data@ + field@);
        Ok(TlvBuilder { data })
    }

    /// Hands out the body.
    pub fn build(self) -> (out: Vec<u8>)
        ensures
            out@ == self@,
    {
        self.data
    }
}

impl Default for TlvBuilder {
    fn default() -> (b: Self)
        ensures
            b@ == Seq::<u8>::empty(),
    {
        TlvBuilder::new()
    }
}

/// A field list with one more field encodes to the body with the bytes of
/// that field added: what the builder does.
pub proof fn law_tlv_encoding_appends(items: Seq<TlvItem>, item: TlvItem)
    ensures
        tlv_encoded(items.push(item)) == tlv_encoded(items) + field_bytes(item.tag, item.value),
    decreases items.len(),
{
    let more = items.push(item);
    if items.len() == 0 {
        assert(more.skip(1) == Seq::<TlvItem>::empty());
        assert(more[0] == item);
        assert(tlv_encoded(more.skip(1)) =~= Seq::<u8>::empty());
        assert(tlv_encoded(more) =~= field_bytes(item.tag, item.value));
        assert(tlv_encoded(items) + field_bytes(item.tag, item.value) =~= field_bytes(
            item.tag,
            item.value,
        ));
    } else {
        assert(more[0] == items[0]);
        assert(more.skip(1) == items.skip(1).push(item));
        law_tlv_encoding_appends(items.skip(1), item);
        assert(tlv_encoded(more) =~= tlv_encoded(items) + field_bytes(item.tag, item.value));
    }
}

/// Encoding is undone by decoding: any field list whose values have at most
/// 255 bytes comes back as it was, whatever its tags.
pub proof fn law_tlv_round_trip(items: Seq<TlvItem>, at: nat)
    requires
        values_fit(items),
    ensures
        tlv_decoded(tlv_encoded(items), at) == Ok::<Seq<TlvItem>, ParseError>(items),
    decreases items.len(),
{
    if items.len() == 0 {
        assert(items =~= Seq::<TlvItem>::empty());
    } else {
        let first = items[0];
        let rest = tlv_encoded(items.skip(1));
        let body = tlv_encoded(items);
        let end = 2 + first.value.len() as int;
        assert(body == field_bytes(first.tag, first.value) + rest);
        assert(body[0] == first.tag);
        assert(body[1] == first.value.len() as u8);
        assert(body.subrange(2, end) =~= first.value);
        assert(body.skip(end) =~= rest);
        assert forall|i: int| 0 <= i < items.skip(1).len() implies items.skip(1)[i].value.len()
            <= 255 by {
            assert(items.skip(1)[i] == items[i + 1]);
        }
        law_tlv_round_trip(items.skip(1), at + end as nat);
        assert(seq![first] + items.skip(1) =~= items);
        assert(TlvItem { tag: body[0], value: body.subrange(2, end) } == first);
    }
}

} // verus!
