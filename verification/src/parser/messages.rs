//! Typed decoder messages and their construction from TLV fields.
//!
//! Where a tag occurs more than once, the last occurrence decides; a field
//! whose value has the wrong size counts as absent.

use vstd::prelude::*;
use vstd::slice::slice_to_vec;
use vstd::utf8::{decode_utf8, valid_utf8};
use crate::parser::error::ParseError;
use crate::parser::tlv::{items_of, le_u16_of, le_u32_of, le_u64_of, TlvDecoder, TlvField, TlvItem};
use crate::protocol::fields::{
    PASSING_DECODER_ID,
    PASSING_FLAGS,
    PASSING_HITS,
    PASSING_NUMBER,
    PASSING_RTC_TIME,
    PASSING_STRENGTH,
    PASSING_STRING,
    PASSING_TRANSPONDER,
    PASSING_UTC_TIME,
    STATUS_DECODER_ID,
    STATUS_GPS_STATUS,
    STATUS_NOISE,
    STATUS_SATINUSE,
    STATUS_TEMPERATURE,
    VERSION_BUILD,
    VERSION_DECODER_ID,
    VERSION_DESCRIPTION,
    VERSION_VERSION,
};
use crate::text::{format_hex_upper, hex_upper, string_from_utf8};

verus! {

/// A transponder crossed a timing loop.
#[derive(Debug, PartialEq)]
pub struct PassingMessage {
    /// Sequential passing number.
    pub passing_number: u32,
    /// Transponder id, of a rider chip or of a gate beacon.
    pub transponder_id: u32,
    /// Decoder clock in microseconds.
    pub rtc_time_us: u64,
    /// GPS time in microseconds, if the decoder had a fix.
    pub utc_time_us: Option<u64>,
    /// Signal strength; riders only.
    pub strength: Option<u16>,
    /// Number of hits; riders only.
    pub hits: Option<u16>,
    /// Transponder text; riders only.
    pub transponder_string: Option<String>,
    /// Flags.
    pub flags: u16,
    /// Decoder id: the four value bytes as upper-case hex, in wire order.
    pub decoder_id: Option<String>,
}

/// Decoder health report.
#[derive(Debug, PartialEq)]
pub struct StatusMessage {
    /// Background noise level.
    pub noise: u16,
    /// GPS status: 0 without fix, 1 locked.
    pub gps_status: u8,
    /// Temperature in tenths of a degree Celsius.
    pub temperature: i16,
    /// GPS satellites in use.
    pub satellites: u8,
    /// Decoder id: the four value bytes as upper-case hex, in wire order.
    pub decoder_id: Option<String>,
}

/// Hardware and firmware identification.
#[derive(Debug, PartialEq)]
pub struct VersionMessage {
    /// Decoder id: the eight value bytes as upper-case hex, in wire order.
    pub decoder_id: String,
    /// Device description.
    pub description: String,
    /// Firmware version.
    pub version: String,
    /// Build number.
    pub build: Option<u16>,
}

/// Any message that the parser yields.
#[derive(Debug, PartialEq)]
pub enum Message {
    Passing(PassingMessage),
    Status(StatusMessage),
    Version(VersionMessage),
}

/// A passing as a mathematical value.
pub struct PassingView {
    pub passing_number: u32,
    pub transponder_id: u32,
    pub rtc_time_us: u64,
    pub utc_time_us: Option<u64>,
    pub strength: Option<u16>,
    pub hits: Option<u16>,
    pub transponder_string: Option<Seq<char>>,
    pub flags: u16,
    pub decoder_id: Option<Seq<char>>,
}

/// A status report as a mathematical value.
pub struct StatusView {
    pub noise: u16,
    pub gps_status: u8,
    pub temperature: i16,
    pub satellites: u8,
    pub decoder_id: Option<Seq<char>>,
}

/// A version report as a mathematical value.
pub struct VersionView {
    pub decoder_id: Seq<char>,
    pub description: Seq<char>,
    pub version: Seq<char>,
    pub build: Option<u16>,
}

/// A message as a mathematical value.
pub enum MessageView {
    Passing(PassingView),
    Status(StatusView),
    Version(VersionView),
}

/// The text of an optional string.
pub open spec fn text_of(s: Option<String>) -> Option<Seq<char>> {
    match s {
        Some(t) => Some(t@),
        None => None,
    }
}

impl View for PassingMessage {
    type V = PassingView;

    open spec fn view(&self) -> PassingView {
        PassingView {
            passing_number: self.passing_number,
            transponder_id: self.transponder_id,
            rtc_time_us: self.rtc_time_us,
            utc_time_us: self.utc_time_us,
            strength: self.strength,
            hits: self.hits,
            transponder_string: text_of(self.transponder_string),
            flags: self.flags,
            decoder_id: text_of(self.decoder_id),
        }
    }
}

impl View for StatusMessage {
    type V = StatusView;

    open spec fn view(&self) -> StatusView {
        StatusView {
            noise: self.noise,
            gps_status: self.gps_status,
            temperature: self.temperature,
            satellites: self.satellites,
            decoder_id: text_of(self.decoder_id),
        }
    }
}

impl View for VersionMessage {
    type V = VersionView;

    open spec fn view(&self) -> VersionView {
        VersionView {
            decoder_id: self.decoder_id@,
            description: self.description@,
            version: self.version@,
            build: self.build,
        }
    }
}

impl View for Message {
    type V = MessageView;

    open spec fn view(&self) -> MessageView {
        match self {
            Message::Passing(m) => MessageView::Passing(m@),
            Message::Status(m) => MessageView::Status(m@),
            Message::Version(m) => MessageView::Version(m@),
        }
    }
}

/// Copies an optional string.
pub fn clone_text(s: &Option<String>) -> (r: Option<String>)
    ensures
        r == *s,
{
    match s {
        Some(t) => Some(t.clone()),
        None => None,
    }
}

impl Clone for PassingMessage {
    fn clone(&self) -> (r: Self)
        ensures
            r == *self,
    {
        PassingMessage {
            passing_number: self.passing_number,
            transponder_id: self.transponder_id,
            rtc_time_us: self.rtc_time_us,
            utc_time_us: self.utc_time_us,
            strength: self.strength,
            hits: self.hits,
            transponder_string: clone_text(&self.transponder_string),
            flags: self.flags,
            decoder_id: clone_text(&self.decoder_id),
        }
    }
}

impl Clone for StatusMessage {
    fn clone(&self) -> (r: Self)
        ensures
            r == *self,
    {
        StatusMessage {
            noise: self.noise,
            gps_status: self.gps_status,
            temperature: self.temperature,
            satellites: self.satellites,
            decoder_id: clone_text(&self.decoder_id),
        }
    }
}

impl Clone for VersionMessage {
    fn clone(&self) -> (r: Self)
        ensures
            r == *self,
    {
        VersionMessage {
            decoder_id: self.decoder_id.clone(),
            description: self.description.clone(),
            version: self.version.clone(),
            build: self.build,
        }
    }
}

impl Clone for Message {
    fn clone(&self) -> (r: Self)
        ensures
            r == *self,
    {
        match self {
            Message::Passing(m) => Message::Passing(m.clone()),
            Message::Status(m) => Message::Status(m.clone()),
            Message::Version(m) => Message::Version(m.clone()),
        }
    }
}

/// The value of the last field that carries `tag`, if any does.
pub open spec fn last_with_tag(items: Seq<TlvItem>, tag: u8) -> Option<Seq<u8>>
    decreases items.len(),
{
    if items.len() == 0 {
        None
    } else if items.last().tag == tag {
        Some(items.last().value)
    } else {
        last_with_tag(items.drop_last(), tag)
    }
}

/// A 32-bit field: the last occurrence, if it has four bytes.
pub open spec fn field_u32(items: Seq<TlvItem>, tag: u8) -> Option<u32> {
    match last_with_tag(items, tag) {
        Some(v) => le_u32_of(v),
        None => None,
    }
}

/// A 16-bit field: the last occurrence, if it has two bytes.
pub open spec fn field_u16(items: Seq<TlvItem>, tag: u8) -> Option<u16> {
    match last_with_tag(items, tag) {
        Some(v) => le_u16_of(v),
        None => None,
    }
}

/// A 64-bit field: the last occurrence, if it has eight bytes.
pub open spec fn field_u64(items: Seq<TlvItem>, tag: u8) -> Option<u64> {
    match last_with_tag(items, tag) {
        Some(v) => le_u64_of(v),
        None => None,
    }
}

/// A signed 16-bit value from the first two little-endian bytes.
pub open spec fn le_i16_of(s: Seq<u8>) -> Option<i16> {
    if s.len() >= 2 {
        let raw = s[0] as int + 256 * (s[1] as int);
        Some(
            if raw < 32768 {
                raw as i16
            } else {
                (raw - 65536) as i16
            },
        )
    } else {
        None
    }
}

/// A signed 16-bit field: the last occurrence, if it has at least two bytes.
pub open spec fn field_i16(items: Seq<TlvItem>, tag: u8) -> Option<i16> {
    match last_with_tag(items, tag) {
        Some(v) => le_i16_of(v),
        None => None,
    }
}

/// The first byte of a value, if it has one.
pub open spec fn first_byte_of(s: Seq<u8>) -> Option<u8> {
    if s.len() >= 1 {
        Some(s[0])
    } else {
        None
    }
}

/// A one-byte field: the first byte of the last occurrence.
pub open spec fn field_u8(items: Seq<TlvItem>, tag: u8) -> Option<u8> {
    match last_with_tag(items, tag) {
        Some(v) => first_byte_of(v),
        None => None,
    }
}

/// The text that a value holds, if it is valid UTF-8.
pub open spec fn utf8_text_of(s: Seq<u8>) -> Option<Seq<char>> {
    if valid_utf8(s) {
        Some(decode_utf8(s))
    } else {
        None
    }
}

/// A text field: the last occurrence, if it is valid UTF-8.
pub open spec fn field_text(items: Seq<TlvItem>, tag: u8) -> Option<Seq<char>> {
    match last_with_tag(items, tag) {
        Some(v) => utf8_text_of(v),
        None => None,
    }
}

/// The upper-case hex text of a value of exactly `width` bytes, in wire
/// order.
pub open spec fn hex_id_of(s: Seq<u8>, width: nat) -> Option<Seq<char>> {
    if s.len() == width {
        Some(hex_upper(s))
    } else {
        None
    }
}

/// A decoder id field: the last occurrence, if it has `width` bytes.
pub open spec fn field_hex_id(items: Seq<TlvItem>, tag: u8, width: nat) -> Option<Seq<char>> {
    match last_with_tag(items, tag) {
        Some(v) => hex_id_of(v, width),
        None => None,
    }
}

/// The passing that a field list stands for, or the tag of the first
/// required field that is missing, in the order passing number, transponder,
/// RTC time, flags.
pub open spec fn passing_from_items(items: Seq<TlvItem>) -> Result<PassingView, ParseError> {
    let passing_number = field_u32(items, 0x01);
    let transponder_id = field_u32(items, 0x03);
    let rtc_time_us = field_u64(items, 0x04);
    let flags = field_u16(items, 0x08);
    if passing_number is None {
        Err(ParseError::TlvMissingRequired { tag: 0x01 })
    } else if transponder_id is None {
        Err(ParseError::TlvMissingRequired { tag: 0x03 })
    } else if rtc_time_us is None {
        Err(ParseError::TlvMissingRequired { tag: 0x04 })
    } else if flags is None {
        Err(ParseError::TlvMissingRequired { tag: 0x08 })
    } else {
        Ok(
            PassingView {
                passing_number: passing_number->0,
                transponder_id: transponder_id->0,
                rtc_time_us: rtc_time_us->0,
                utc_time_us: field_u64(items, 0x10),
                strength: field_u16(items, 0x05),
                hits: field_u16(items, 0x06),
                transponder_string: field_text(items, 0x0A),
                flags: flags->0,
                decoder_id: field_hex_id(items, 0x81, 4),
            },
        )
    }
}

/// The status report that a field list stands for, or the tag of the first
/// required field that is missing, in the order noise, GPS status,
/// temperature, satellites.
pub open spec fn status_from_items(items: Seq<TlvItem>) -> Result<StatusView, ParseError> {
    let noise = field_u16(items, 0x01);
    let gps_status = field_u8(items, 0x06);
    let temperature = field_i16(items, 0x07);
    let satellites = field_u8(items, 0x0A);
    if noise is None {
        Err(ParseError::TlvMissingRequired { tag: 0x01 })
    } else if gps_status is None {
        Err(ParseError::TlvMissingRequired { tag: 0x06 })
    } else if temperature is None {
        Err(ParseError::TlvMissingRequired { tag: 0x07 })
    } else if satellites is None {
        Err(ParseError::TlvMissingRequired { tag: 0x0A })
    } else {
        Ok(
            StatusView {
                noise: noise->0,
                gps_status: gps_status->0,
                temperature: temperature->0,
                satellites: satellites->0,
                decoder_id: field_hex_id(items, 0x81, 4),
            },
        )
    }
}

/// The version report that a field list stands for, or the tag of the first
/// required field that is missing, in the order decoder id, description,
/// version.
pub open spec fn version_from_items(items: Seq<TlvItem>) -> Result<VersionView, ParseError> {
    let decoder_id = field_hex_id(items, 0x20, 8);
    let description = field_text(items, 0x21);
    let version = field_text(items, 0x22);
    if decoder_id is None {
        Err(ParseError::TlvMissingRequired { tag: 0x20 })
    } else if description is None {
        Err(ParseError::TlvMissingRequired { tag: 0x21 })
    } else if version is None {
        Err(ParseError::TlvMissingRequired { tag: 0x22 })
    } else {
        Ok(
            VersionView {
                decoder_id: decoder_id->0,
                description: description->0,
                version: version->0,
                build: field_u16(items, 0x23),
            },
        )
    }
}

/// Writes a decoder id of exactly four bytes as eight upper-case hex digits,
/// in wire order.
pub fn format_decoder_id_u32(bytes: &[u8]) -> (r: Option<String>)
    ensures
        text_of(r) == hex_id_of(bytes@, 4),
{
    if bytes.len() == 4 {
        Some(format_hex_upper(bytes))
    } else {
        None
    }
}

/// Writes a decoder id of exactly eight bytes as sixteen upper-case hex
/// digits, in wire order.
pub fn format_decoder_id_u64(bytes: &[u8]) -> (r: Option<String>)
    ensures
        text_of(r) == hex_id_of(bytes@, 8),
{
    if bytes.len() == 8 {
        Some(format_hex_upper(bytes))
    } else {
        None
    }
}

/// Reads the first two bytes of a value as a little-endian `i16`.
pub fn decode_i16(bytes: &[u8]) -> (r: Option<i16>)
    ensures
        r == le_i16_of(bytes@),
{
    if bytes.len() >= 2 {
        let raw: i32 = bytes[0] as i32 + 256 * (bytes[1] as i32);
        if raw < 32768 {
            Some(raw as i16)
        } else {
            Some((raw - 65536) as i16)
        }
    } else {
        None
    }
}

/// Reads the first byte of a value.
fn decode_u8(bytes: &[u8]) -> (r: Option<u8>)
    ensures
        r == first_byte_of(bytes@),
{
    if bytes.len() >= 1 {
        Some(bytes[0])
    } else {
        None
    }
}

/// Reads a value as UTF-8 text.
fn decode_text(bytes: &[u8]) -> (r: Option<String>)
    ensures
        text_of(r) == utf8_text_of(bytes@),
{
    string_from_utf8(slice_to_vec(bytes))
}

/// Turns an absent required field into the error that names its tag.
pub fn require_field<T>(value: Option<T>, tag: u8) -> (r: Result<T, ParseError>)
    ensures
        r == match value {
            Some(v) => Ok::<T, ParseError>(v),
            None => Err::<T, ParseError>(ParseError::TlvMissingRequired { tag }),
        },
{
    match value {
        Some(v) => Ok(v),
        None => Err(ParseError::TlvMissingRequired { tag }),
    }
}

/// Unfolds `last_with_tag` at the field that a loop has just read.
proof fn lemma_last_with_tag_step(fields: Seq<TlvField>, i: int, tag: u8)
    requires
        0 <= i < fields.len(),
    ensures
        last_with_tag(items_of(fields).take(i + 1), tag) == if fields[i].tag == tag {
            Some(fields[i].value@)
        } else {
            last_with_tag(items_of(fields).take(i), tag)
        },
{
    let next = items_of(fields).take(i + 1);
    assert(next.drop_last() == items_of(fields).take(i));
    assert(next.last() == fields[i]@);
}

impl PassingMessage {
    /// Builds a passing from decoded fields.
    ///
    /// Required: passing number, transponder, RTC time, flags. Optional: UTC
    /// time, strength, hits, transponder text, decoder id. Fields with other
    /// tags are skipped.
    pub fn from_tlv_fields(fields: &[TlvField]) -> (r: Result<PassingMessage, ParseError>)
        ensures
            match r {
                Ok(m) => passing_from_items(items_of(fields@)) == Ok::<PassingView, ParseError>(
                    m@,
                ),
                Err(e) => passing_from_items(items_of(fields@)) == Err::<PassingView, ParseError>(
                    e,
                ),
            },
    {
        let mut passing_number: Option<u32> = None;
        let mut transponder_id: Option<u32> = None;
        let mut rtc_time_us: Option<u64> = None;
        let mut utc_time_us: Option<u64> = None;
        let mut strength: Option<u16> = None;
        let mut hits: Option<u16> = None;
        let mut transponder_string: Option<String> = None;
        let mut flags: Option<u16> = None;
        let mut decoder_id: Option<String> = None;
        let ghost items = items_of(fields@);
        let mut i: usize = 0;
        proof {
            assert(items.take(0).len() == 0);
        }
        while i < fields.len()
            invariant
                i <= fields.len(),
                items == items_of(fields@),
                passing_number == field_u32(items.take(i as int), 0x01),
                transponder_id == field_u32(items.take(i as int), 0x03),
                rtc_time_us == field_u64(items.take(i as int), 0x04),
                utc_time_us == field_u64(items.take(i as int), 0x10),
                strength == field_u16(items.take(i as int), 0x05),
                hits == field_u16(items.take(i as int), 0x06),
                text_of(transponder_string) == field_text(items.take(i as int), 0x0A),
                flags == field_u16(items.take(i as int), 0x08),
                text_of(decoder_id) == field_hex_id(items.take(i as int), 0x81, 4),
            decreases fields.len() - i,
        {
            let field = &fields[i];
            proof {
                lemma_last_with_tag_step(fields@, i as int, 0x01);
                lemma_last_with_tag_step(fields@, i as int, 0x03);
                lemma_last_with_tag_step(fields@, i as int, 0x04);
                lemma_last_with_tag_step(fields@, i as int, 0x10);
                lemma_last_with_tag_step(fields@, i as int, 0x05);
                lemma_last_with_tag_step(fields@, i as int, 0x06);
                lemma_last_with_tag_step(fields@, i as int, 0x0A);
                lemma_last_with_tag_step(fields@, i as int, 0x08);
                lemma_last_with_tag_step(fields@, i as int, 0x81);
            }
            let tag = field.tag;
            let value = field.value.as_slice();
            if tag == PASSING_NUMBER {
                passing_number = TlvDecoder::decode_u32(value);
            } else if tag == PASSING_TRANSPONDER {
                transponder_id = TlvDecoder::decode_u32(value);
            } else if tag == PASSING_RTC_TIME {
                rtc_time_us = TlvDecoder::decode_u64(value);
            } else if tag == PASSING_UTC_TIME {
                utc_time_us = TlvDecoder::decode_u64(value);
            } else if tag == PASSING_STRENGTH {
                strength = TlvDecoder::decode_u16(value);
            } else if tag == PASSING_HITS {
                hits = TlvDecoder::decode_u16(value);
            } else if tag == PASSING_STRING {
                transponder_string = decode_text(value);
            } else if tag == PASSING_FLAGS {
                flags = TlvDecoder::decode_u16(value);
            } else if tag == PASSING_DECODER_ID {
                decoder_id = format_decoder_id_u32(value);
            }
            i += 1;
        }
        proof {
            assert(items.take(i as int) == items);
        }
        let passing_number = match require_field(passing_number, PASSING_NUMBER) {
            Ok(v) => v,
            Err(e) => {
                return Err(e);
            },
        };
        let transponder_id = match require_field(transponder_id, PASSING_TRANSPONDER) {
            Ok(v) => v,
            Err(e) => {
                return Err(e);
            },
        };
        let rtc_time_us = match require_field(rtc_time_us, PASSING_RTC_TIME) {
            Ok(v) => v,
            Err(e) => {
                return Err(e);
            },
        };
        let flags = match require_field(flags, PASSING_FLAGS) {
            Ok(v) => v,
            Err(e) => {
                return Err(e);
            },
        };
        Ok(
            PassingMessage {
                passing_number,
                transponder_id,
                rtc_time_us,
                utc_time_us,
                strength,
                hits,
                transponder_string,
                flags,
                decoder_id,
            },
        )
    }
}

impl StatusMessage {
    /// Builds a status report from decoded fields.
    ///
    /// Required: noise (0x01), GPS status (0x06), temperature (0x07),
    /// satellites (0x0A). Optional: decoder id (0x81). Fields with other
    /// tags are skipped, so a report that uses the tags 0x15 to 0x18 for these
    /// values is rejected for want of the required ones.
    pub fn from_tlv_fields(fields: &[TlvField]) -> (r: Result<StatusMessage, ParseError>)
        ensures
            match r {
                Ok(m) => status_from_items(items_of(fields@)) == Ok::<StatusView, ParseError>(m@),
                Err(e) => status_from_items(items_of(fields@)) == Err::<StatusView, ParseError>(
                    e,
                ),
            },
    {
        let mut noise: Option<u16> = None;
        let mut gps_status: Option<u8> = None;
        let mut temperature: Option<i16> = None;
        let mut satellites: Option<u8> = None;
        let mut decoder_id: Option<String> = None;
        let ghost items = items_of(fields@);
        let mut i: usize = 0;
        proof {
            assert(items.take(0).len() == 0);
        }
        while i < fields.len()
            invariant
                i <= fields.len(),
                items == items_of(fields@),
                noise == field_u16(items.take(i as int), 0x01),
                gps_status == field_u8(items.take(i as int), 0x06),
                temperature == field_i16(items.take(i as int), 0x07),
                satellites == field_u8(items.take(i as int), 0x0A),
                text_of(decoder_id) == field_hex_id(items.take(i as int), 0x81, 4),
            decreases fields.len() - i,
        {
            let field = &fields[i];
            proof {
                lemma_last_with_tag_step(fields@, i as int, 0x01);
                lemma_last_with_tag_step(fields@, i as int, 0x06);
                lemma_last_with_tag_step(fields@, i as int, 0x07);
                lemma_last_with_tag_step(fields@, i as int, 0x0A);
                lemma_last_with_tag_step(fields@, i as int, 0x81);
            }
            let tag = field.tag;
            let value = field.value.as_slice();
            if tag == STATUS_NOISE {
                noise = TlvDecoder::decode_u16(value);
            } else if tag == STATUS_GPS_STATUS {
                gps_status = decode_u8(value);
            } else if tag == STATUS_TEMPERATURE {
                temperature = decode_i16(value);
            } else if tag == STATUS_SATINUSE {
                satellites = decode_u8(value);
            } else if tag == STATUS_DECODER_ID {
                decoder_id = format_decoder_id_u32(value);
            }
            i += 1;
        }
        proof {
            assert(items.take(i as int) == items);
        }
        let noise = match require_field(noise, STATUS_NOISE) {
            Ok(v) => v,
            Err(e) => {
                return Err(e);
            },
        };
        let gps_status = match require_field(gps_status, STATUS_GPS_STATUS) {
            Ok(v) => v,
            Err(e) => {
                return Err(e);
            },
        };
        let temperature = match require_field(temperature, STATUS_TEMPERATURE) {
            Ok(v) => v,
            Err(e) => {
                return Err(e);
            },
        };
        let satellites = match require_field(satellites, STATUS_SATINUSE) {
            Ok(v) => v,
            Err(e) => {
                return Err(e);
            },
        };
        Ok(StatusMessage { noise, gps_status, temperature, satellites, decoder_id })
    }
}

impl VersionMessage {
    /// Builds a version report from decoded fields.
    ///
    /// Required: decoder id, description, version. Optional: build. Fields
    /// with other tags are skipped.
    pub fn from_tlv_fields(fields: &[TlvField]) -> (r: Result<VersionMessage, ParseError>)
        ensures
            match r {
                Ok(m) => version_from_items(items_of(fields@)) == Ok::<VersionView, ParseError>(
                    m@,
                ),
                Err(e) => version_from_items(items_of(fields@)) == Err::<VersionView, ParseError>(
                    e,
                ),
            },
    {
        let mut decoder_id: Option<String> = None;
        let mut description: Option<String> = None;
        let mut version: Option<String> = None;
        let mut build: Option<u16> = None;
        let ghost items = items_of(fields@);
        let mut i: usize = 0;
        proof {
            assert(items.take(0).len() == 0);
        }
        while i < fields.len()
            invariant
                i <= fields.len(),
                items == items_of(fields@),
                text_of(decoder_id) == field_hex_id(items.take(i as int), 0x20, 8),
                text_of(description) == field_text(items.take(i as int), 0x21),
                text_of(version) == field_text(items.take(i as int), 0x22),
                build == field_u16(items.take(i as int), 0x23),
            decreases fields.len() - i,
        {
            let field = &fields[i];
            proof {
                lemma_last_with_tag_step(fields@, i as int, 0x20);
                lemma_last_with_tag_step(fields@, i as int, 0x21);
                lemma_last_with_tag_step(fields@, i as int, 0x22);
                lemma_last_with_tag_step(fields@, i as int, 0x23);
            }
            let tag = field.tag;
            let value = field.value.as_slice();
            if tag == VERSION_DECODER_ID {
                decoder_id = format_decoder_id_u64(value);
            } else if tag == VERSION_DESCRIPTION {
                description = decode_text(value);
            } else if tag == VERSION_VERSION {
                version = decode_text(value);
            } else if tag == VERSION_BUILD {
                build = TlvDecoder::decode_u16(value);
            }
            i += 1;
        }
        proof {
            assert(items.take(i as int) == items);
        }
        let decoder_id = match require_field(decoder_id, VERSION_DECODER_ID) {
            Ok(v) => v,
            Err(e) => {
                return Err(e);
            },
        };
        let description = match require_field(description, VERSION_DESCRIPTION) {
            Ok(v) => v,
            Err(e) => {
                return Err(e);
            },
        };
        let version = match require_field(version, VERSION_VERSION) {
            Ok(v) => v,
            Err(e) => {
                return Err(e);
            },
        };
        Ok(VersionMessage { decoder_id, description, version, build })
    }
}

} // verus!
