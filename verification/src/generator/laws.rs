//! What holds of every built frame: it is framed as a whole and parses
//! back to what it was built from.

use vstd::prelude::*;
use vstd::utf8::{encode_utf8, encode_utf8_decode_utf8, encode_utf8_valid_utf8};
use crate::generator::builder::{
    gate_passing_body,
    message_crc,
    passing_body,
    version_body,
    sealed_frame,
    status_body,
    unescaped_frame,
    wire_message,
};
use crate::generator::tlv::{
    law_tlv_encoding_appends,
    law_tlv_round_trip,
    le_bytes_i16,
    le_bytes_u16,
    le_bytes_u32,
    le_bytes_u64,
    lemma_le_bytes_i16_round_trip,
    lemma_le_bytes_u16_round_trip,
    lemma_le_bytes_u32_round_trip,
    lemma_le_bytes_u64_round_trip,
    tlv_encoded,
    values_fit,
};
use crate::parser::messages::{
    field_hex_id,
    field_i16,
    field_text,
    field_u16,
    field_u32,
    field_u64,
    field_u8,
    last_with_tag,
    utf8_text_of,
    MessageView,
    PassingView,
    StatusView,
    VersionView,
};
use crate::parser::tlv::TlvItem;
use crate::parser::{message_from_items, message_parsed};
use crate::text::hex_upper;
use crate::parser::error::ParseError;
use crate::parser::frame::{frame_of_unescaped, frame_parsed, FrameModel};
use crate::parser::stream::{escaped_end, is_wire_frame};
use crate::protocol::crc::{
    crc_prepend,
    frame_crc_valid,
    frame_unescaped,
    with_zero_crc,
};
use crate::protocol::error::{CrcError, EscapeError};
use crate::protocol::escape::{
    control_count,
    lemma_escaped_len_counts_controls,
    escape_one,
    escaped,
    is_control,
    lemma_escaped_len,
    prepend,
    unescaped,
};
use crate::protocol::types::{hi_byte, le_u16, lo_byte, message_type_code, message_type_of, MessageType};

verus! {

/// Unescaping reads escaped data back and goes on with what follows.
pub proof fn lemma_unescaped_after_escaped(x: Seq<u8>, w: Seq<u8>)
    ensures
        unescaped(escaped(x) + w) == match unescaped(w) {
            Ok(r) => Ok::<Seq<u8>, EscapeError>(x + r),
            Err(e) => Err::<Seq<u8>, EscapeError>(e),
        },
    decreases x.len(),
{
    if x.len() == 0 {
        assert(escaped(x) + w == w);
        match unescaped(w) {
            Ok(r) => {
                assert(x + r == r);
            },
            Err(_) => {},
        }
    } else {
        let b = x[0];
        let tail = escaped(x.skip(1)) + w;
        let all = escaped(x) + w;
        lemma_unescaped_after_escaped(x.skip(1), w);
        assert(all == escape_one(b) + tail);
        if is_control(b) {
            assert(all[0] == 0x8Du8);
            assert(all[1] == (b + 0x20) as u8);
            assert(all.skip(2) == tail);
            assert(((b + 0x20) as u8 - 0x20) as u8 == b);
            assert(unescaped(all) == prepend(b, unescaped(tail)));
        } else {
            assert(all[0] == b);
            assert(all.skip(1) == tail);
            assert(unescaped(all) == prepend(b, unescaped(tail)));
        }
        match unescaped(w) {
            Ok(r) => {
                assert(seq![b] + (x.skip(1) + r) == x + r);
            },
            Err(_) => {},
        }
    }
}

/// The unescaping before the checksum reads escaped data back as well.
pub proof fn lemma_frame_unescaped_after_escaped(x: Seq<u8>, w: Seq<u8>, at: nat)
    ensures
        frame_unescaped(escaped(x) + w, at) == match frame_unescaped(w, at + escaped(x).len()) {
            Ok(r) => Ok::<Seq<u8>, CrcError>(x + r),
            Err(e) => Err::<Seq<u8>, CrcError>(e),
        },
    decreases x.len(),
{
    if x.len() == 0 {
        assert(escaped(x) + w == w);
        match frame_unescaped(w, at) {
            Ok(r) => {
                assert(x + r == r);
            },
            Err(_) => {},
        }
    } else {
        let b = x[0];
        let tail = escaped(x.skip(1)) + w;
        let all = escaped(x) + w;
        assert(all == escape_one(b) + tail);
        if is_control(b) {
            lemma_frame_unescaped_after_escaped(x.skip(1), w, at + 2);
            assert(all[0] == 0x8Du8);
            assert(all[1] == (b + 0x20) as u8);
            assert(all.skip(2) == tail);
            assert(((b + 0x20) as u8 - 0x20) as u8 == b);
            assert(frame_unescaped(all, at) == crc_prepend(b, frame_unescaped(tail, at + 2)));
        } else {
            lemma_frame_unescaped_after_escaped(x.skip(1), w, at + 1);
            assert(all[0] == b);
            assert(all.skip(1) == tail);
            assert(frame_unescaped(all, at) == crc_prepend(b, frame_unescaped(tail, at + 1)));
        }
        match frame_unescaped(w, at + escaped(x).len()) {
            Ok(r) => {
                assert(seq![b] + (x.skip(1) + r) == x + r);
            },
            Err(_) => {},
        }
    }
}

/// Walking over escaped data counts the bytes before escaping.
pub proof fn lemma_walk_over_escaped(buf: Seq<u8>, pos: int, x: Seq<u8>, extra: nat)
    requires
        0 <= pos,
        pos + escaped(x).len() <= buf.len(),
        buf.subrange(pos, pos + escaped(x).len()) == escaped(x),
    ensures
        escaped_end(buf, pos, x.len() + extra) == escaped_end(
            buf,
            pos + escaped(x).len(),
            extra,
        ),
    decreases x.len(),
{
    if x.len() > 0 {
        let b = x[0];
        let part = buf.subrange(pos, pos + escaped(x).len());
        let rest = escaped(x.skip(1));
        let step = escape_one(b).len() as int;
        assert(escaped(x) == escape_one(b) + rest);
        assert(part[0] == buf[pos]);
        assert(buf.subrange(pos + step, pos + step + rest.len()) == rest) by {
            assert(buf.subrange(pos + step, pos + step + rest.len()) =~= part.skip(step));
            assert(part.skip(step) =~= rest);
        }
        lemma_walk_over_escaped(buf, pos + step, x.skip(1), extra);
        if is_control(b) {
            assert(part[1] == buf[pos + 1]);
        }
    }
}

/// The two bytes of a 16-bit value give the value back.
proof fn lemma_le_u16_bytes(v: u16)
    ensures
        le_u16(lo_byte(v), hi_byte(v)) == v,
{
}

/// A built frame parses back: for any type and any body that fits a frame,
/// the wire frame passes every check of the frame parser, its checksum is
/// the one it carries, and the parsed frame holds the type and the body it
/// was built from.
pub proof fn law_built_frame_parses(message_type: MessageType, body: Seq<u8>)
    requires
        body.len() + 11 <= 0xFFFF,
    ensures
        frame_crc_valid(wire_message(message_type, body)) == Ok::<bool, CrcError>(true),
        unescaped(wire_message(message_type, body)) == Ok::<Seq<u8>, EscapeError>(
            sealed_frame(message_type, body),
        ),
        frame_parsed(wire_message(message_type, body)) == Ok::<FrameModel, ParseError>(
            FrameModel {
                message_type,
                body,
                crc: message_crc(message_type, body),
                reserved: 0,
            },
        ),
{
    let crc = message_crc(message_type, body);
    let frame = sealed_frame(message_type, body);
    let inside = frame.subrange(1, frame.len() - 1);
    let wire = wire_message(message_type, body);
    let sor = seq![0x8Eu8];
    let eor = seq![0x8Fu8];
    let length = (body.len() + 11) as u16;
    let code = message_type_code(message_type);
    assert(frame.len() == body.len() + 11);
    assert(frame == sor + inside + eor);
    assert(wire == sor + (escaped(inside) + eor));
    assert(wire[0] == 0x8Eu8);
    assert(wire.skip(1) == escaped(inside) + eor);
    // Strict unescaping.
    assert(unescaped(eor) == Ok::<Seq<u8>, EscapeError>(eor)) by {
        assert(eor.skip(1) == Seq::<u8>::empty());
        assert(unescaped(eor.skip(1)) == Ok::<Seq<u8>, EscapeError>(Seq::<u8>::empty()));
        assert(seq![0x8Fu8] + Seq::<u8>::empty() == eor);
    }
    lemma_unescaped_after_escaped(inside, eor);
    assert(sor + (inside + eor) == frame);
    assert(unescaped(wire) == Ok::<Seq<u8>, EscapeError>(frame));
    // Unescaping before the checksum.
    let behind = (1 + escaped(inside).len()) as nat;
    assert(frame_unescaped(eor, behind) == Ok::<Seq<u8>, CrcError>(eor)) by {
        assert(eor.skip(1) == Seq::<u8>::empty());
        assert(frame_unescaped(eor.skip(1), behind + 1) == Ok::<Seq<u8>, CrcError>(
            Seq::<u8>::empty(),
        ));
        assert(seq![0x8Fu8] + Seq::<u8>::empty() == eor);
    }
    lemma_frame_unescaped_after_escaped(inside, eor, 1);
    assert(frame_unescaped(wire, 0) == Ok::<Seq<u8>, CrcError>(frame)) by {
        lemma_escaped_len(inside);
        assert(wire.len() >= 2);
    }
    // The checksum.
    assert(with_zero_crc(frame) == unescaped_frame(message_type, body, 0));
    lemma_le_u16_bytes(crc);
    assert(frame[4] == lo_byte(crc) && frame[5] == hi_byte(crc));
    // The header fields.
    lemma_le_u16_bytes(length);
    lemma_le_u16_bytes(code);
    lemma_le_u16_bytes(0);
    assert(frame[2] == lo_byte(length) && frame[3] == hi_byte(length));
    assert(frame[8] == lo_byte(code) && frame[9] == hi_byte(code));
    assert(frame[6] == 0u8 && frame[7] == 0u8);
    assert(message_type_of(code) == Some(message_type));
    assert(frame[frame.len() - 1] == 0x8Fu8);
    assert(frame.subrange(10, frame.len() - 1) == body);
    assert(frame_of_unescaped(frame) == Ok::<FrameModel, ParseError>(
        FrameModel { message_type, body, crc, reserved: 0 },
    ));
    // The checks on the wire form.
    lemma_escaped_len(inside);
    assert(wire.len() >= 11);
    assert(inside[0] == 0x02u8);
    assert(escaped(inside)[0] == 0x02u8) by {
        assert(escaped(inside) == escape_one(inside[0]) + escaped(inside.skip(1)));
    }
    assert(wire[1] == 0x02u8);
}

/// Whether neither byte of the length of a frame needs escaping. Only then
/// does the wire form show the length at the place where the framer reads
/// it.
pub open spec fn length_reads_plain(body: Seq<u8>) -> bool {
    let length = (body.len() + 11) as u16;
    !is_control(lo_byte(length)) && !is_control(hi_byte(length))
}

/// A built frame is framed as a whole: the walk of its declared length ends
/// at its last byte. So a stream of built frames is cut at their
/// boundaries, whatever escapes they hold.
///
/// This holds for frames whose length bytes need no escaping; a frame of,
/// say, 138 bytes carries its length escaped, and the framer, which reads
/// the length from the wire, cannot frame it.
pub proof fn law_built_frame_is_wire_frame(message_type: MessageType, body: Seq<u8>)
    requires
        body.len() + 11 <= 0xFFFF,
        length_reads_plain(body),
    ensures
        is_wire_frame(wire_message(message_type, body)),
{
    let frame = sealed_frame(message_type, body);
    let inside = frame.subrange(1, frame.len() - 1);
    let wire = wire_message(message_type, body);
    let length = (body.len() + 11) as u16;
    let lo = lo_byte(length);
    let hi = hi_byte(length);
    let coded = escaped(inside);
    lemma_escaped_len(inside);
    lemma_le_u16_bytes(length);
    assert(frame.len() == body.len() + 11);
    assert(wire.len() == coded.len() + 2);
    // The first three bytes of the inside travel as they are.
    let head = seq![0x02u8, lo, hi];
    let tail = inside.skip(3);
    assert(inside == head + tail);
    assert(escaped(head) == head) by {
        let h1 = head.skip(1);
        let h2 = h1.skip(1);
        assert(h2.skip(1) == Seq::<u8>::empty());
        assert(escaped(h2.skip(1)) == Seq::<u8>::empty());
        assert(escaped(h2) == seq![hi] + Seq::<u8>::empty());
        assert(escaped(h1) == seq![lo] + escaped(h2));
        assert(escaped(head) == seq![0x02u8] + escaped(h1));
        assert(escaped(head) =~= head);
    }
    crate::protocol::escape::lemma_escaped_concat(head, tail);
    assert(coded == head + escaped(tail));
    assert(wire[0] == 0x8Eu8);
    assert(wire[2] == lo);
    assert(wire[3] == hi);
    // The walk: SOR, the inside, EOR.
    assert(wire.subrange(1, 1 + coded.len() as int) == coded);
    lemma_walk_over_escaped(wire, 1, inside, 1);
    assert(inside.len() + 2 == length);
    assert(escaped_end(wire, 0, length as nat) == escaped_end(wire, 1, (length - 1) as nat));
    assert(wire[wire.len() - 1] == 0x8Fu8);
    assert(escaped_end(wire, 1 + coded.len() as int, 1) == Some(wire.len() as int)) by {
        assert(escaped_end(wire, wire.len() as int, 0) == Some(wire.len() as int));
    }
}

/// The end of a frame on the wire lies behind its declared length by the
/// number of its escape pairs: a frame of length `L` with one escape pair
/// ends at `L + 1`.
pub proof fn law_frame_end_counts_escapes(message_type: MessageType, body: Seq<u8>)
    requires
        body.len() + 11 <= 0xFFFF,
        length_reads_plain(body),
    ensures
        ({
            let wire = wire_message(message_type, body);
            let frame = sealed_frame(message_type, body);
            let length = le_u16(wire[2], wire[3]);
            &&& length == frame.len()
            &&& escaped_end(wire, 0, length as nat) == Some(
                length + control_count(frame.subrange(1, frame.len() - 1)),
            )
        }),
{
    let frame = sealed_frame(message_type, body);
    let inside = frame.subrange(1, frame.len() - 1);
    let wire = wire_message(message_type, body);
    law_built_frame_is_wire_frame(message_type, body);
    lemma_escaped_len_counts_controls(inside);
    let length = (body.len() + 11) as u16;
    lemma_le_u16_bytes(length);
    assert(frame.len() == body.len() + 11);
    assert(wire.len() == escaped(inside).len() + 2);
    // The length bytes travel as they are.
    let head = seq![0x02u8, lo_byte(length), hi_byte(length)];
    let tail = inside.skip(3);
    assert(inside == head + tail);
    assert(escaped(head) == head) by {
        let h1 = head.skip(1);
        let h2 = h1.skip(1);
        assert(h2.skip(1) == Seq::<u8>::empty());
        assert(escaped(h2.skip(1)) == Seq::<u8>::empty());
        assert(escaped(h2) == seq![hi_byte(length)] + Seq::<u8>::empty());
        assert(escaped(h1) == seq![lo_byte(length)] + escaped(h2));
        assert(escaped(head) == seq![0x02u8] + escaped(h1));
        assert(escaped(head) =~= head);
    }
    crate::protocol::escape::lemma_escaped_concat(head, tail);
    assert(wire[2] == lo_byte(length));
    assert(wire[3] == hi_byte(length));
}

/// The last field with a tag, looked up in a list with one field more at
/// its end.
proof fn lemma_last_with_tag_push(items: Seq<TlvItem>, item: TlvItem, tag: u8)
    ensures
        last_with_tag(items.push(item), tag) == if item.tag == tag {
            Some(item.value)
        } else {
            last_with_tag(items, tag)
        },
{
    assert(items.push(item).drop_last() == items);
    assert(items.push(item).last() == item);
}

/// A frame built from the encoding of a field list parses to the message
/// that the fields stand for.
proof fn lemma_built_fields_parse(message_type: MessageType, items: Seq<TlvItem>)
    requires
        values_fit(items),
        tlv_encoded(items).len() + 11 <= 0xFFFF,
    ensures
        message_parsed(wire_message(message_type, tlv_encoded(items))) == message_from_items(
            message_type,
            items,
        ),
{
    law_built_frame_parses(message_type, tlv_encoded(items));
    law_tlv_round_trip(items, 0);
}

/// The fields of a status report, in the order built.
pub open spec fn status_items(
    noise: u16,
    temperature: i16,
    gps_status: u8,
    satinuse: u8,
    decoder_id: u32,
) -> Seq<TlvItem> {
    seq![
        TlvItem { tag: 0x01, value: le_bytes_u16(noise) },
        TlvItem { tag: 0x07, value: le_bytes_i16(temperature) },
        TlvItem { tag: 0x06, value: seq![gps_status] },
        TlvItem { tag: 0x0A, value: seq![satinuse] },
        TlvItem { tag: 0x81, value: le_bytes_u32(decoder_id) },
    ]
}

/// The fields of a passing, in the order built.
pub open spec fn passing_items(
    passing_number: u32,
    transponder: u32,
    rtc_time: u64,
    strength: u16,
    hits: u16,
    flags: u16,
    string: Option<Seq<u8>>,
    decoder_id: u32,
) -> Seq<TlvItem> {
    seq![
        TlvItem { tag: 0x01, value: le_bytes_u32(passing_number) },
        TlvItem { tag: 0x03, value: le_bytes_u32(transponder) },
    ] + (match string {
        Some(s) => seq![TlvItem { tag: 0x0A, value: s }],
        None => Seq::empty(),
    }) + seq![
        TlvItem { tag: 0x05, value: le_bytes_u16(strength) },
        TlvItem { tag: 0x06, value: le_bytes_u16(hits) },
        TlvItem { tag: 0x04, value: le_bytes_u64(rtc_time) },
        TlvItem { tag: 0x08, value: le_bytes_u16(flags) },
        TlvItem { tag: 0x81, value: le_bytes_u32(decoder_id) },
    ]
}

/// The fields of a gate passing, in the order built.
pub open spec fn gate_passing_items(
    passing_number: u32,
    transponder: u32,
    rtc_time: u64,
    decoder_id: u32,
) -> Seq<TlvItem> {
    seq![
        TlvItem { tag: 0x01, value: le_bytes_u32(passing_number) },
        TlvItem { tag: 0x03, value: le_bytes_u32(transponder) },
        TlvItem { tag: 0x04, value: le_bytes_u64(rtc_time) },
        TlvItem { tag: 0x08, value: le_bytes_u16(0) },
        TlvItem { tag: 0x81, value: le_bytes_u32(decoder_id) },
    ]
}

/// The fields of a version report, in the order built.
pub open spec fn version_items(
    decoder_id: u64,
    description: Seq<u8>,
    version: Seq<u8>,
    build: u16,
) -> Seq<TlvItem> {
    seq![
        TlvItem { tag: 0x20, value: le_bytes_u64(decoder_id) },
        TlvItem { tag: 0x21, value: description },
        TlvItem { tag: 0x22, value: version },
        TlvItem { tag: 0x23, value: le_bytes_u16(build) },
    ]
}

/// The encoding of `n` fields with values that fit is at most `257 n`
/// bytes long.
proof fn lemma_encoded_len(items: Seq<TlvItem>)
    ensures
        values_fit(items) ==> tlv_encoded(items).len() <= 257 * items.len(),
    decreases items.len(),
{
    if items.len() > 0 && values_fit(items) {
        assert forall|i: int| 0 <= i < items.skip(1).len() implies items.skip(1)[i].value.len()
            <= 255 by {
            assert(items.skip(1)[i] == items[i + 1]);
        }
        lemma_encoded_len(items.skip(1));
    }
}

/// The value that the fields of a status report hold under each tag.
proof fn lemma_status_tags(
    noise: u16,
    temperature: i16,
    gps_status: u8,
    satinuse: u8,
    decoder_id: u32,
)
    ensures
        forall|tag: u8|
            last_with_tag(
                status_items(noise, temperature, gps_status, satinuse, decoder_id),
                tag,
            ) == if tag == 0x81 {
                Some(le_bytes_u32(decoder_id))
            } else if tag == 0x0A {
                Some(seq![satinuse])
            } else if tag == 0x06 {
                Some(seq![gps_status])
            } else if tag == 0x07 {
                Some(le_bytes_i16(temperature))
            } else if tag == 0x01 {
                Some(le_bytes_u16(noise))
            } else {
                None
            },
        tlv_encoded(status_items(noise, temperature, gps_status, satinuse, decoder_id))
            == status_body(noise, temperature, gps_status, satinuse, decoder_id),
        values_fit(status_items(noise, temperature, gps_status, satinuse, decoder_id)),
{
    let items = status_items(noise, temperature, gps_status, satinuse, decoder_id);
    let none = Seq::<TlvItem>::empty();
    let i1 = none.push(items[0]);
    let i2 = i1.push(items[1]);
    let i3 = i2.push(items[2]);
    let i4 = i3.push(items[3]);
    assert(items == i4.push(items[4]));
    assert forall|tag: u8|
        last_with_tag(items, tag) == if tag == 0x81 {
            Some(le_bytes_u32(decoder_id))
        } else if tag == 0x0A {
            Some(seq![satinuse])
        } else if tag == 0x06 {
            Some(seq![gps_status])
        } else if tag == 0x07 {
            Some(le_bytes_i16(temperature))
        } else if tag == 0x01 {
            Some(le_bytes_u16(noise))
        } else {
            None
        } by {
        lemma_last_with_tag_push(none, items[0], tag);
        lemma_last_with_tag_push(i1, items[1], tag);
        lemma_last_with_tag_push(i2, items[2], tag);
        lemma_last_with_tag_push(i3, items[3], tag);
        lemma_last_with_tag_push(i4, items[4], tag);
    }
    law_tlv_encoding_appends(none, items[0]);
    law_tlv_encoding_appends(i1, items[1]);
    law_tlv_encoding_appends(i2, items[2]);
    law_tlv_encoding_appends(i3, items[3]);
    law_tlv_encoding_appends(i4, items[4]);
    assert(tlv_encoded(none) == Seq::<u8>::empty());
    assert(tlv_encoded(items) =~= status_body(
        noise,
        temperature,
        gps_status,
        satinuse,
        decoder_id,
    ));
}

/// A built status frame parses back to the values it was built from, with
/// the decoder id as the hex text of its four bytes in wire order.
pub proof fn law_built_status_parses(
    noise: u16,
    temperature: i16,
    gps_status: u8,
    satinuse: u8,
    decoder_id: u32,
)
    ensures
        message_parsed(
            wire_message(
                MessageType::Status,
                status_body(noise, temperature, gps_status, satinuse, decoder_id),
            ),
        ) == Ok::<MessageView, ParseError>(
            MessageView::Status(
                StatusView {
                    noise,
                    gps_status,
                    temperature,
                    satellites: satinuse,
                    decoder_id: Some(hex_upper(le_bytes_u32(decoder_id))),
                },
            ),
        ),
{
    let items = status_items(noise, temperature, gps_status, satinuse, decoder_id);
    lemma_status_tags(noise, temperature, gps_status, satinuse, decoder_id);
    lemma_encoded_len(items);
    lemma_built_fields_parse(MessageType::Status, items);
    lemma_le_bytes_u16_round_trip(noise);
    lemma_le_bytes_i16_round_trip(temperature);
    lemma_le_bytes_u32_round_trip(decoder_id);
    assert(field_u16(items, 0x01) == Some(noise));
    assert(field_u8(items, 0x06) == Some(gps_status));
    assert(field_i16(items, 0x07) == Some(temperature));
    assert(field_u8(items, 0x0A) == Some(satinuse));
    assert(field_hex_id(items, 0x81, 4) == Some(hex_upper(le_bytes_u32(decoder_id))));
}

/// The value that the fields of a gate passing hold under each tag.
proof fn lemma_gate_passing_tags(
    passing_number: u32,
    transponder: u32,
    rtc_time: u64,
    decoder_id: u32,
)
    ensures
        forall|tag: u8|
            last_with_tag(
                gate_passing_items(passing_number, transponder, rtc_time, decoder_id),
                tag,
            ) == if tag == 0x81 {
                Some(le_bytes_u32(decoder_id))
            } else if tag == 0x08 {
                Some(le_bytes_u16(0))
            } else if tag == 0x04 {
                Some(le_bytes_u64(rtc_time))
            } else if tag == 0x03 {
                Some(le_bytes_u32(transponder))
            } else if tag == 0x01 {
                Some(le_bytes_u32(passing_number))
            } else {
                None
            },
        tlv_encoded(gate_passing_items(passing_number, transponder, rtc_time, decoder_id))
            == gate_passing_body(passing_number, transponder, rtc_time, decoder_id),
        values_fit(gate_passing_items(passing_number, transponder, rtc_time, decoder_id)),
{
    let items = gate_passing_items(passing_number, transponder, rtc_time, decoder_id);
    let none = Seq::<TlvItem>::empty();
    let i1 = none.push(items[0]);
    let i2 = i1.push(items[1]);
    let i3 = i2.push(items[2]);
    let i4 = i3.push(items[3]);
    assert(items == i4.push(items[4]));
    assert forall|tag: u8|
        last_with_tag(items, tag) == if tag == 0x81 {
            Some(le_bytes_u32(decoder_id))
        } else if tag == 0x08 {
            Some(le_bytes_u16(0))
        } else if tag == 0x04 {
            Some(le_bytes_u64(rtc_time))
        } else if tag == 0x03 {
            Some(le_bytes_u32(transponder))
        } else if tag == 0x01 {
            Some(le_bytes_u32(passing_number))
        } else {
            None
        } by {
        lemma_last_with_tag_push(none, items[0], tag);
        lemma_last_with_tag_push(i1, items[1], tag);
        lemma_last_with_tag_push(i2, items[2], tag);
        lemma_last_with_tag_push(i3, items[3], tag);
        lemma_last_with_tag_push(i4, items[4], tag);
    }
    law_tlv_encoding_appends(none, items[0]);
    law_tlv_encoding_appends(i1, items[1]);
    law_tlv_encoding_appends(i2, items[2]);
    law_tlv_encoding_appends(i3, items[3]);
    law_tlv_encoding_appends(i4, items[4]);
    assert(tlv_encoded(none) == Seq::<u8>::empty());
    assert(tlv_encoded(items) =~= gate_passing_body(
        passing_number,
        transponder,
        rtc_time,
        decoder_id,
    ));
}

/// A built gate passing parses back to the values it was built from, with
/// no text, strength or hits.
pub proof fn law_built_gate_passing_parses(
    passing_number: u32,
    transponder: u32,
    rtc_time: u64,
    decoder_id: u32,
)
    ensures
        message_parsed(
            wire_message(
                MessageType::Passing,
                gate_passing_body(passing_number, transponder, rtc_time, decoder_id),
            ),
        ) == Ok::<MessageView, ParseError>(
            MessageView::Passing(
                PassingView {
                    passing_number,
                    transponder_id: transponder,
                    rtc_time_us: rtc_time,
                    utc_time_us: None,
                    strength: None,
                    hits: None,
                    transponder_string: None,
                    flags: 0,
                    decoder_id: Some(hex_upper(le_bytes_u32(decoder_id))),
                },
            ),
        ),
{
    let items = gate_passing_items(passing_number, transponder, rtc_time, decoder_id);
    lemma_gate_passing_tags(passing_number, transponder, rtc_time, decoder_id);
    lemma_encoded_len(items);
    lemma_built_fields_parse(MessageType::Passing, items);
    lemma_le_bytes_u32_round_trip(passing_number);
    lemma_le_bytes_u32_round_trip(transponder);
    lemma_le_bytes_u32_round_trip(decoder_id);
    lemma_le_bytes_u64_round_trip(rtc_time);
    lemma_le_bytes_u16_round_trip(0);
    assert(field_u32(items, 0x01) == Some(passing_number));
    assert(field_u32(items, 0x03) == Some(transponder));
    assert(field_u64(items, 0x04) == Some(rtc_time));
    assert(field_u16(items, 0x08) == Some(0u16));
    assert(field_u64(items, 0x10) is None);
    assert(field_u16(items, 0x05) is None);
    assert(field_u16(items, 0x06) is None);
    assert(field_text(items, 0x0A) is None);
    assert(field_hex_id(items, 0x81, 4) == Some(hex_upper(le_bytes_u32(decoder_id))));
}

/// The value that the fields of a passing hold under each tag.
proof fn lemma_passing_tags(
    passing_number: u32,
    transponder: u32,
    rtc_time: u64,
    strength: u16,
    hits: u16,
    flags: u16,
    string: Option<Seq<u8>>,
    decoder_id: u32,
)
    requires
        string matches Some(s) ==> s.len() <= 255,
    ensures
        forall|tag: u8|
            last_with_tag(
                passing_items(
                    passing_number,
                    transponder,
                    rtc_time,
                    strength,
                    hits,
                    flags,
                    string,
                    decoder_id,
                ),
                tag,
            ) == if tag == 0x81 {
                Some(le_bytes_u32(decoder_id))
            } else if tag == 0x08 {
                Some(le_bytes_u16(flags))
            } else if tag == 0x04 {
                Some(le_bytes_u64(rtc_time))
            } else if tag == 0x06 {
                Some(le_bytes_u16(hits))
            } else if tag == 0x05 {
                Some(le_bytes_u16(strength))
            } else if tag == 0x0A {
                string
            } else if tag == 0x03 {
                Some(le_bytes_u32(transponder))
            } else if tag == 0x01 {
                Some(le_bytes_u32(passing_number))
            } else {
                None
            },
        tlv_encoded(
            passing_items(
                passing_number,
                transponder,
                rtc_time,
                strength,
                hits,
                flags,
                string,
                decoder_id,
            ),
        ) == passing_body(
            passing_number,
            transponder,
            rtc_time,
            strength,
            hits,
            flags,
            string,
            decoder_id,
        ),
        values_fit(
            passing_items(
                passing_number,
                transponder,
                rtc_time,
                strength,
                hits,
                flags,
                string,
                decoder_id,
            ),
        ),
        passing_items(
            passing_number,
            transponder,
            rtc_time,
            strength,
            hits,
            flags,
            string,
            decoder_id,
        ).len() <= 8,
{
    let items = passing_items(
        passing_number,
        transponder,
        rtc_time,
        strength,
        hits,
        flags,
        string,
        decoder_id,
    );
    let f0 = TlvItem { tag: 0x01, value: le_bytes_u32(passing_number) };
    let f1 = TlvItem { tag: 0x03, value: le_bytes_u32(transponder) };
    let f3 = TlvItem { tag: 0x05, value: le_bytes_u16(strength) };
    let f4 = TlvItem { tag: 0x06, value: le_bytes_u16(hits) };
    let f5 = TlvItem { tag: 0x04, value: le_bytes_u64(rtc_time) };
    let f6 = TlvItem { tag: 0x08, value: le_bytes_u16(flags) };
    let f7 = TlvItem { tag: 0x81, value: le_bytes_u32(decoder_id) };
    let none = Seq::<TlvItem>::empty();
    let i1 = none.push(f0);
    let i2 = i1.push(f1);
    let with_text = match string {
        Some(s) => i2.push(TlvItem { tag: 0x0A, value: s }),
        None => i2,
    };
    let i4 = with_text.push(f3);
    let i5 = i4.push(f4);
    let i6 = i5.push(f5);
    let i7 = i6.push(f6);
    assert(items =~= i7.push(f7));
    assert forall|tag: u8|
        last_with_tag(items, tag) == if tag == 0x81 {
            Some(f7.value)
        } else if tag == 0x08 {
            Some(f6.value)
        } else if tag == 0x04 {
            Some(f5.value)
        } else if tag == 0x06 {
            Some(f4.value)
        } else if tag == 0x05 {
            Some(f3.value)
        } else if tag == 0x0A {
            string
        } else if tag == 0x03 {
            Some(f1.value)
        } else if tag == 0x01 {
            Some(f0.value)
        } else {
            None
        } by {
        lemma_last_with_tag_push(none, f0, tag);
        lemma_last_with_tag_push(i1, f1, tag);
        if string is Some {
            lemma_last_with_tag_push(i2, TlvItem { tag: 0x0A, value: string->0 }, tag);
        }
        lemma_last_with_tag_push(with_text, f3, tag);
        lemma_last_with_tag_push(i4, f4, tag);
        lemma_last_with_tag_push(i5, f5, tag);
        lemma_last_with_tag_push(i6, f6, tag);
        lemma_last_with_tag_push(i7, f7, tag);
    }
    law_tlv_encoding_appends(none, f0);
    law_tlv_encoding_appends(i1, f1);
    if string is Some {
        law_tlv_encoding_appends(i2, TlvItem { tag: 0x0A, value: string->0 });
    }
    law_tlv_encoding_appends(with_text, f3);
    law_tlv_encoding_appends(i4, f4);
    law_tlv_encoding_appends(i5, f5);
    law_tlv_encoding_appends(i6, f6);
    law_tlv_encoding_appends(i7, f7);
    assert(tlv_encoded(none) == Seq::<u8>::empty());
    assert(tlv_encoded(items) =~= passing_body(
        passing_number,
        transponder,
        rtc_time,
        strength,
        hits,
        flags,
        string,
        decoder_id,
    ));
}

/// A built passing parses back to the values it was built from. The
/// transponder text comes back where it was given and is valid UTF-8.
pub proof fn law_built_passing_parses(
    passing_number: u32,
    transponder: u32,
    rtc_time: u64,
    strength: u16,
    hits: u16,
    flags: u16,
    string: Option<Seq<u8>>,
    decoder_id: u32,
)
    requires
        string matches Some(s) ==> s.len() <= 255,
    ensures
        message_parsed(
            wire_message(
                MessageType::Passing,
                passing_body(
                    passing_number,
                    transponder,
                    rtc_time,
                    strength,
                    hits,
                    flags,
                    string,
                    decoder_id,
                ),
            ),
        ) == Ok::<MessageView, ParseError>(
            MessageView::Passing(
                PassingView {
                    passing_number,
                    transponder_id: transponder,
                    rtc_time_us: rtc_time,
                    utc_time_us: None,
                    strength: Some(strength),
                    hits: Some(hits),
                    transponder_string: match string {
                        Some(s) => utf8_text_of(s),
                        None => None,
                    },
                    flags,
                    decoder_id: Some(hex_upper(le_bytes_u32(decoder_id))),
                },
            ),
        ),
{
    let items = passing_items(
        passing_number,
        transponder,
        rtc_time,
        strength,
        hits,
        flags,
        string,
        decoder_id,
    );
    lemma_passing_tags(
        passing_number,
        transponder,
        rtc_time,
        strength,
        hits,
        flags,
        string,
        decoder_id,
    );
    lemma_encoded_len(items);
    lemma_built_fields_parse(MessageType::Passing, items);
    lemma_le_bytes_u32_round_trip(passing_number);
    lemma_le_bytes_u32_round_trip(transponder);
    lemma_le_bytes_u32_round_trip(decoder_id);
    lemma_le_bytes_u64_round_trip(rtc_time);
    lemma_le_bytes_u16_round_trip(strength);
    lemma_le_bytes_u16_round_trip(hits);
    lemma_le_bytes_u16_round_trip(flags);
    assert(field_u32(items, 0x01) == Some(passing_number));
    assert(field_u32(items, 0x03) == Some(transponder));
    assert(field_u64(items, 0x04) == Some(rtc_time));
    assert(field_u16(items, 0x08) == Some(flags));
    assert(field_u64(items, 0x10) is None);
    assert(field_u16(items, 0x05) == Some(strength));
    assert(field_u16(items, 0x06) == Some(hits));
    assert(field_text(items, 0x0A) == match string {
        Some(s) => utf8_text_of(s),
        None => None,
    });
    assert(field_hex_id(items, 0x81, 4) == Some(hex_upper(le_bytes_u32(decoder_id))));
}

/// The value that the fields of a version report hold under each tag.
proof fn lemma_version_tags(decoder_id: u64, description: Seq<u8>, version: Seq<u8>, build: u16)
    requires
        description.len() <= 255,
        version.len() <= 255,
    ensures
        forall|tag: u8|
            last_with_tag(version_items(decoder_id, description, version, build), tag)
                == if tag == 0x23 {
                Some(le_bytes_u16(build))
            } else if tag == 0x22 {
                Some(version)
            } else if tag == 0x21 {
                Some(description)
            } else if tag == 0x20 {
                Some(le_bytes_u64(decoder_id))
            } else {
                None
            },
        tlv_encoded(version_items(decoder_id, description, version, build)) == version_body(
            decoder_id,
            description,
            version,
            build,
        ),
        values_fit(version_items(decoder_id, description, version, build)),
{
    let items = version_items(decoder_id, description, version, build);
    let none = Seq::<TlvItem>::empty();
    let i1 = none.push(items[0]);
    let i2 = i1.push(items[1]);
    let i3 = i2.push(items[2]);
    assert(items == i3.push(items[3]));
    assert forall|tag: u8|
        last_with_tag(items, tag) == if tag == 0x23 {
            Some(le_bytes_u16(build))
        } else if tag == 0x22 {
            Some(version)
        } else if tag == 0x21 {
            Some(description)
        } else if tag == 0x20 {
            Some(le_bytes_u64(decoder_id))
        } else {
            None
        } by {
        lemma_last_with_tag_push(none, items[0], tag);
        lemma_last_with_tag_push(i1, items[1], tag);
        lemma_last_with_tag_push(i2, items[2], tag);
        lemma_last_with_tag_push(i3, items[3], tag);
    }
    law_tlv_encoding_appends(none, items[0]);
    law_tlv_encoding_appends(i1, items[1]);
    law_tlv_encoding_appends(i2, items[2]);
    law_tlv_encoding_appends(i3, items[3]);
    assert(tlv_encoded(none) == Seq::<u8>::empty());
    assert(tlv_encoded(items) =~= version_body(decoder_id, description, version, build));
}

/// A built version report parses back to the values it was built from,
/// for any description and version text of at most 255 bytes.
pub proof fn law_built_version_parses(
    decoder_id: u64,
    description: Seq<char>,
    version: Seq<char>,
    build: u16,
)
    requires
        encode_utf8(description).len() <= 255,
        encode_utf8(version).len() <= 255,
    ensures
        message_parsed(
            wire_message(
                MessageType::Version,
                version_body(decoder_id, encode_utf8(description), encode_utf8(version), build),
            ),
        ) == Ok::<MessageView, ParseError>(
            MessageView::Version(
                VersionView {
                    decoder_id: hex_upper(le_bytes_u64(decoder_id)),
                    description,
                    version,
                    build: Some(build),
                },
            ),
        ),
{
    let items = version_items(decoder_id, encode_utf8(description), encode_utf8(version), build);
    lemma_version_tags(decoder_id, encode_utf8(description), encode_utf8(version), build);
    lemma_encoded_len(items);
    lemma_built_fields_parse(MessageType::Version, items);
    lemma_le_bytes_u64_round_trip(decoder_id);
    lemma_le_bytes_u16_round_trip(build);
    encode_utf8_valid_utf8(description);
    encode_utf8_valid_utf8(version);
    encode_utf8_decode_utf8(description);
    encode_utf8_decode_utf8(version);
    assert(field_hex_id(items, 0x20, 8) == Some(hex_upper(le_bytes_u64(decoder_id))));
    assert(field_text(items, 0x21) == Some(description));
    assert(field_text(items, 0x22) == Some(version));
    assert(field_u16(items, 0x23) == Some(build));
}

} // verus!
