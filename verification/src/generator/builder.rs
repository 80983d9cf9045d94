//! Building complete wire frames.
//!
//! A frame is the header, the TLV body and EOR; its CRC is taken over the
//! unescaped frame with the CRC field at zero, and everything between SOR
//! and EOR is escaped.

use vstd::prelude::*;
use vstd::array::array_as_slice;
use vstd::slice::slice_subrange;
use vstd::string::StringSliceAdditionalSpecFns;
use std::time::SystemTimeError;
use crate::generator::timestamp::current_timestamp_micros;
use crate::generator::tlv::{
    field_bytes,
    le_bytes_i16,
    le_bytes_u16,
    le_bytes_u32,
    le_bytes_u64,
    TlvBuilder,
    TlvError,
};
use crate::protocol::crc::{calculate_crc, crc16};
use crate::protocol::escape::{encode, escaped};
use crate::protocol::types::{
    hi_byte,
    lo_byte,
    message_type_code,
    u16_to_le,
    MessageType,
    EOR,
    HEADER_SIZE,
    OFFSET_CRC,
    SOR,
    VERSION,
};

verus! {

/// Why a message could not be built.
#[derive(Debug)]
pub enum BuilderError {
    /// The system clock is set before the Unix epoch.
    TimeError(SystemTimeError),
    /// A field could not be encoded.
    TlvError(TlvError),
}

/// The unescaped frame of a type and a body, carrying a given CRC.
pub open spec fn unescaped_frame(message_type: MessageType, body: Seq<u8>, crc: u16) -> Seq<u8> {
    let length = (body.len() + 11) as u16;
    let code = message_type_code(message_type);
    seq![
        0x8Eu8,
        0x02u8,
        lo_byte(length),
        hi_byte(length),
        lo_byte(crc),
        hi_byte(crc),
        0u8,
        0u8,
        lo_byte(code),
        hi_byte(code),
    ] + body + seq![0x8Fu8]
}

/// The CRC that the frame of a type and a body carries.
pub open spec fn message_crc(message_type: MessageType, body: Seq<u8>) -> u16 {
    crc16(unescaped_frame(message_type, body, 0))
}

/// The unescaped frame of a type and a body, with its CRC in place.
pub open spec fn sealed_frame(message_type: MessageType, body: Seq<u8>) -> Seq<u8> {
    unescaped_frame(message_type, body, message_crc(message_type, body))
}

/// The wire frame of a type and a body: SOR, the escaped inside of the
/// sealed frame, EOR.
pub open spec fn wire_message(message_type: MessageType, body: Seq<u8>) -> Seq<u8> {
    let frame = sealed_frame(message_type, body);
    seq![0x8Eu8] + escaped(frame.subrange(1, frame.len() - 1)) + seq![0x8Fu8]
}

/// The body of a passing. The transponder text, where given, stands behind
/// the transponder id.
pub open spec fn passing_body(
    passing_number: u32,
    transponder: u32,
    rtc_time: u64,
    strength: u16,
    hits: u16,
    flags: u16,
    string: Option<Seq<u8>>,
    decoder_id: u32,
) -> Seq<u8> {
    field_bytes(0x01, le_bytes_u32(passing_number)) + field_bytes(0x03, le_bytes_u32(transponder))
        + (match string {
        Some(s) => field_bytes(0x0A, s),
        None => Seq::empty(),
    }) + field_bytes(0x05, le_bytes_u16(strength)) + field_bytes(0x06, le_bytes_u16(hits))
        + field_bytes(0x04, le_bytes_u64(rtc_time)) + field_bytes(0x08, le_bytes_u16(flags))
        + field_bytes(0x81, le_bytes_u32(decoder_id))
}

/// The body of a gate passing: no text, strength or hits; flags zero.
pub open spec fn gate_passing_body(
    passing_number: u32,
    transponder: u32,
    rtc_time: u64,
    decoder_id: u32,
) -> Seq<u8> {
    field_bytes(0x01, le_bytes_u32(passing_number)) + field_bytes(0x03, le_bytes_u32(transponder))
        + field_bytes(0x04, le_bytes_u64(rtc_time)) + field_bytes(0x08, le_bytes_u16(0))
        + field_bytes(0x81, le_bytes_u32(decoder_id))
}

/// The body of a status report.
pub open spec fn status_body(
    noise: u16,
    temperature: i16,
    gps_status: u8,
    satinuse: u8,
    decoder_id: u32,
) -> Seq<u8> {
    field_bytes(0x01, le_bytes_u16(noise)) + field_bytes(0x07, le_bytes_i16(temperature))
        + field_bytes(0x06, seq![gps_status]) + field_bytes(0x0A, seq![satinuse]) + field_bytes(
        0x81,
        le_bytes_u32(decoder_id),
    )
}

/// The body of a version report.
pub open spec fn version_body(
    decoder_id: u64,
    description: Seq<u8>,
    version: Seq<u8>,
    build: u16,
) -> Seq<u8> {
    field_bytes(0x20, le_bytes_u64(decoder_id)) + field_bytes(0x21, description) + field_bytes(
        0x22,
        version,
    ) + field_bytes(0x23, le_bytes_u16(build))
}

/// The timestamp that `build_gate_passing_with_escape` uses, taken from a
/// recorded gate drop.
pub const ESCAPING_RTC_TIME: u64 = 1762286699916839;

/// Builds the wire frame of a type and a body: header and EOR are put
/// around the body, the CRC is computed and put in place, and the inside is
/// escaped.
pub fn build_message(msg_type: MessageType, tlv_body: Vec<u8>) -> (out: Vec<u8>)
    requires
        tlv_body@.len() + 11 <= 0xFFFF,
    ensures
        out@ == wire_message(msg_type, tlv_body@),
{
    let unescaped_length: u16 = (HEADER_SIZE + tlv_body.len() + 1) as u16;
    let length = u16_to_le(unescaped_length);
    let code = u16_to_le(msg_type.to_u16());
    let mut unescaped: Vec<u8> = Vec::new();
    unescaped.push(SOR);
    unescaped.push(VERSION);
    unescaped.push(length.0);
    unescaped.push(length.1);
    unescaped.push(0x00);
    unescaped.push(0x00);
    unescaped.push(0x00);
    unescaped.push(0x00);
    unescaped.push(code.0);
    unescaped.push(code.1);
    unescaped.extend_from_slice(tlv_body.as_slice());
    unescaped.push(EOR);
    assert(unescaped@ =~= unescaped_frame(msg_type, tlv_body@, 0));
    let crc_value = calculate_crc(unescaped.as_slice());
    let crc = u16_to_le(crc_value);
    unescaped.set(OFFSET_CRC, crc.0);
    unescaped.set(OFFSET_CRC + 1, crc.1);
    assert(unescaped@ =~= sealed_frame(msg_type, tlv_body@));
    let inside = slice_subrange(unescaped.as_slice(), 1, unescaped.len() - 1);
    let escaped_inside = encode(inside);
    let mut out: Vec<u8> = Vec::new();
    out.push(SOR);
    out.extend_from_slice(escaped_inside.as_slice());
    out.push(EOR);
    assert(out@ =~= wire_message(msg_type, tlv_body@));
    out
}

/// Builds a passing frame. The transponder text is left out where `string`
/// is `None`. Never fails: a text of eight bytes always fits.
pub fn build_passing(
    passing_number: u32,
    transponder: u32,
    rtc_time: u64,
    strength: u16,
    hits: u16,
    flags: u16,
    string: Option<&[u8; 8]>,
    decoder_id: u32,
) -> (r: Result<Vec<u8>, BuilderError>)
    ensures
        r matches Ok(out) && out@ == wire_message(
            MessageType::Passing,
            passing_body(
                passing_number,
                transponder,
                rtc_time,
                strength,
                hits,
                flags,
                match string {
                    Some(s) => Some(s@),
                    None => None,
                },
                decoder_id,
            ),
        ),
{
    let mut tlv = TlvBuilder::new().add_u32(0x01, passing_number).add_u32(0x03, transponder);
    if let Some(s) = string {
        tlv = match tlv.add_bytes(0x0A, array_as_slice(s)) {
            Ok(t) => t,
            Err(e) => {
                return Err(BuilderError::TlvError(e));
            },
        };
    }
    let tlv_body = tlv.add_u16(0x05, strength).add_u16(0x06, hits).add_u64(0x04, rtc_time).add_u16(
        0x08,
        flags,
    ).add_u32(0x81, decoder_id).build();
    proof {
        assert(tlv_body@ =~= passing_body(
            passing_number,
            transponder,
            rtc_time,
            strength,
            hits,
            flags,
            match string {
                Some(s) => Some(s@),
                None => None,
            },
            decoder_id,
        ));
    }
    Ok(build_message(MessageType::Passing, tlv_body))
}

/// Builds a status frame.
pub fn build_status(noise: u16, temperature: i16, gps_status: u8, satinuse: u8, decoder_id: u32) -> (out:
    Vec<u8>)
    ensures
        out@ == wire_message(
            MessageType::Status,
            status_body(noise, temperature, gps_status, satinuse, decoder_id),
        ),
{
    let tlv_body = TlvBuilder::new().add_u16(0x01, noise).add_i16(0x07, temperature).add_u8(
        0x06,
        gps_status,
    ).add_u8(0x0A, satinuse).add_u32(0x81, decoder_id).build();
    proof {
        assert(tlv_body@ =~= status_body(noise, temperature, gps_status, satinuse, decoder_id));
    }
    build_message(MessageType::Status, tlv_body)
}

/// Builds a version frame. Fails with `TlvError` when the description or
/// the version text has more than 255 bytes; the description is looked at
/// first.
pub fn build_version(decoder_id: u64, description: &str, version_string: &str, build: u16) -> (r:
    Result<Vec<u8>, BuilderError>)
    ensures
        description.spec_bytes().len() <= 255 && version_string.spec_bytes().len() <= 255 ==> (
        r matches Ok(out) && out@ == wire_message(
            MessageType::Version,
            version_body(
                decoder_id,
                description.spec_bytes(),
                version_string.spec_bytes(),
                build,
            ),
        )),
        description.spec_bytes().len() > 255 ==> (r matches Err(BuilderError::TlvError(e)) && e == (
        TlvError::ValueTooLong { actual: description.spec_bytes().len() as usize, max: 255 })),
        description.spec_bytes().len() <= 255 && version_string.spec_bytes().len() > 255 ==> (
        r matches Err(BuilderError::TlvError(e)) && e == (TlvError::ValueTooLong {
            actual: version_string.spec_bytes().len() as usize,
            max: 255,
        })),
{
    let with_id = TlvBuilder::new().add_u64(0x20, decoder_id);
    let with_description = match with_id.add_bytes(0x21, description.as_bytes()) {
        Ok(t) => t,
        Err(e) => {
            return Err(BuilderError::TlvError(e));
        },
    };
    let with_version = match with_description.add_bytes(0x22, version_string.as_bytes()) {
        Ok(t) => t,
        Err(e) => {
            return Err(BuilderError::TlvError(e));
        },
    };
    let tlv_body = with_version.add_u16(0x23, build).build();
    proof {
        assert(tlv_body@ =~= version_body(
            decoder_id,
            description.spec_bytes(),
            version_string.spec_bytes(),
            build,
        ));
    }
    Ok(build_message(MessageType::Version, tlv_body))
}

/// Builds the passing frame of a rider: with transponder text, flags zero.
pub fn build_rider_passing(
    passing_number: u32,
    transponder: u32,
    string: &[u8; 8],
    rtc_time: u64,
    strength: u16,
    hits: u16,
    decoder_id: u32,
) -> (r: Result<Vec<u8>, BuilderError>)
    ensures
        r matches Ok(out) && out@ == wire_message(
            MessageType::Passing,
            passing_body(
                passing_number,
                transponder,
                rtc_time,
                strength,
                hits,
                0,
                Some(string@),
                decoder_id,
            ),
        ),
{
    build_passing(
        passing_number,
        transponder,
        rtc_time,
        strength,
        hits,
        0x0000,
        Some(string),
        decoder_id,
    )
}

/// Builds the passing frame of a gate beacon: no text, strength or hits.
pub fn build_gate_passing(passing_number: u32, transponder: u32, rtc_time: u64, decoder_id: u32) -> (out:
    Vec<u8>)
    ensures
        out@ == wire_message(
            MessageType::Passing,
            gate_passing_body(passing_number, transponder, rtc_time, decoder_id),
        ),
{
    let tlv_body = TlvBuilder::new().add_u32(0x01, passing_number).add_u32(0x03, transponder).add_u64(
        0x04,
        rtc_time,
    ).add_u16(0x08, 0x0000).add_u32(0x81, decoder_id).build();
    proof {
        assert(tlv_body@ =~= gate_passing_body(passing_number, transponder, rtc_time, decoder_id));
    }
    build_message(MessageType::Passing, tlv_body)
}

/// Builds the passing frame of a rider, stamped with the system clock.
/// Fails with `TimeError` when the clock is set before the Unix epoch.
pub fn build_rider_passing_now(
    passing_number: u32,
    transponder: u32,
    string: &[u8; 8],
    strength: u16,
    hits: u16,
    decoder_id: u32,
) -> (r: Result<Vec<u8>, BuilderError>)
    ensures
        r matches Ok(out) ==> exists|rtc_time: u64|
            out@ == wire_message(
                MessageType::Passing,
                #[trigger] passing_body(
                    passing_number,
                    transponder,
                    rtc_time,
                    strength,
                    hits,
                    0,
                    Some(string@),
                    decoder_id,
                ),
            ),
        r matches Err(e) ==> e is TimeError,
{
    let now = match current_timestamp_micros() {
        Ok(t) => t,
        Err(e) => {
            return Err(e);
        },
    };
    build_rider_passing(passing_number, transponder, string, now, strength, hits, decoder_id)
}

/// Builds the passing frame of a gate beacon, stamped with the system
/// clock. Fails with `TimeError` when the clock is set before the Unix
/// epoch.
pub fn build_gate_passing_now(passing_number: u32, transponder: u32, decoder_id: u32) -> (r: Result<
    Vec<u8>,
    BuilderError,
>)
    ensures
        r matches Ok(out) ==> exists|rtc_time: u64|
            out@ == wire_message(
                MessageType::Passing,
                #[trigger] gate_passing_body(passing_number, transponder, rtc_time, decoder_id),
            ),
        r matches Err(e) ==> e is TimeError,
{
    let now = match current_timestamp_micros() {
        Ok(t) => t,
        Err(e) => {
            return Err(e);
        },
    };
    Ok(build_gate_passing(passing_number, transponder, now, decoder_id))
}

/// Builds the passing frame of a gate beacon with the fixed timestamp
/// `ESCAPING_RTC_TIME`, for trying out parsers on a recorded gate drop.
/// Whether the frame holds an escape pair depends on the other fields and
/// on the CRC they give.
pub fn build_gate_passing_with_escape(passing_number: u32, transponder: u32, decoder_id: u32) -> (out:
    Vec<u8>)
    ensures
        out@ == wire_message(
            MessageType::Passing,
            gate_passing_body(passing_number, transponder, 1762286699916839, decoder_id),
        ),
{
    build_gate_passing(passing_number, transponder, ESCAPING_RTC_TIME, decoder_id)
}

} // verus!
