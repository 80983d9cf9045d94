use p3_timing::generator::builder::{
    build_gate_passing, build_gate_passing_now, build_gate_passing_with_escape, build_message,
    build_passing, build_rider_passing, build_rider_passing_now, build_status, build_version,
    BuilderError,
};
use p3_timing::generator::timestamp::{
    current_timestamp_micros, date_of_days, elapsed_to_micros, format_timestamp,
    micros_to_system_time, micros_to_u64, system_time_to_micros,
};
use p3_timing::generator::tlv::{
    encode_bytes, encode_i16, encode_u16, encode_u32, encode_u64, encode_u8, TlvBuilder, TlvError,
};
use p3_timing::parser::messages::{Message, PassingMessage, StatusMessage, VersionMessage};
use p3_timing::parser::stream::{find_complete_message, MessageFramer};
use p3_timing::parser::tlv::{TlvDecoder, TlvField};
use p3_timing::parser::Parser;
use p3_timing::protocol::crc::validate_crc;
use p3_timing::protocol::types::{MessageType, EOR, SOR, VERSION};
use std::time::{Duration, UNIX_EPOCH};

#[test]
fn test_encode_u8() {
    let result = encode_u8(0x06, 1);
    assert_eq!(result, vec![0x06, 0x01, 0x01]);
}

#[test]
fn test_encode_u16() {
    let result = encode_u16(0x05, 0x7F00);
    assert_eq!(result, vec![0x05, 0x02, 0x00, 0x7F]);
}

#[test]
fn test_encode_u16_simple() {
    let result = encode_u16(0x05, 127);
    assert_eq!(result, vec![0x05, 0x02, 0x7F, 0x00]);
}

#[test]
fn test_encode_i16_positive() {
    let result = encode_i16(0x07, 16);
    assert_eq!(result, vec![0x07, 0x02, 0x10, 0x00]);
}

#[test]
fn test_encode_i16_negative() {
    let result = encode_i16(0x07, -10);
    assert_eq!(result, vec![0x07, 0x02, 0xF6, 0xFF]);
}

#[test]
fn test_encode_i16_extremes() {
    assert_eq!(encode_i16(0x07, i16::MIN), vec![0x07, 0x02, 0x00, 0x80]);
    assert_eq!(encode_i16(0x07, i16::MAX), vec![0x07, 0x02, 0xFF, 0x7F]);
    assert_eq!(encode_i16(0x07, -1), vec![0x07, 0x02, 0xFF, 0xFF]);
    assert_eq!(encode_i16(0x07, 0), vec![0x07, 0x02, 0x00, 0x00]);
}

#[test]
fn test_encode_u32() {
    let result = encode_u32(0x01, 8841);
    assert_eq!(result, vec![0x01, 0x04, 0x89, 0x22, 0x00, 0x00]);
}

#[test]
fn test_encode_u32_transponder() {
    let result = encode_u32(0x03, 102758186);
    assert_eq!(result, vec![0x03, 0x04, 0x2A, 0xF7, 0x1F, 0x06]);
}

#[test]
fn test_encode_u64() {
    let result = encode_u64(0x04, 0x0006426530063546);
    assert_eq!(result, vec![0x04, 0x08, 0x46, 0x35, 0x06, 0x30, 0x65, 0x42, 0x06, 0x00]);
}

#[test]
fn test_encode_extremes_match_std() {
    let mut expected = vec![0x10, 0x08];
    expected.extend_from_slice(&u64::MAX.to_le_bytes());
    assert_eq!(encode_u64(0x10, u64::MAX), expected);
    let value = 0x0123_4567_89AB_CDEFu64;
    let mut expected = vec![0x10, 0x08];
    expected.extend_from_slice(&value.to_le_bytes());
    assert_eq!(encode_u64(0x10, value), expected);
    let mut expected = vec![0x01, 0x04];
    expected.extend_from_slice(&0xDEADBEEFu32.to_le_bytes());
    assert_eq!(encode_u32(0x01, 0xDEADBEEF), expected);
    assert_eq!(encode_u16(0x01, 0xFFFF), vec![0x01, 0x02, 0xFF, 0xFF]);
}

#[test]
fn test_encode_bytes() {
    let string_data = b"FL-94890";
    let result = encode_bytes(0x0A, string_data).unwrap();
    assert_eq!(result, vec![0x0A, 0x08, b'F', b'L', b'-', b'9', b'4', b'8', b'9', b'0']);
}

#[test]
fn test_encode_bytes_too_long() {
    let long_data = vec![0u8; 256];
    let result = encode_bytes(0x01, &long_data);
    assert!(matches!(result, Err(TlvError::ValueTooLong { actual: 256, max: 255 })));
}

#[test]
fn test_encode_bytes_longest_and_empty() {
    let data = vec![0x42u8; 255];
    let encoded = encode_bytes(0x21, &data).unwrap();
    assert_eq!(encoded.len(), 257);
    assert_eq!(encoded[0], 0x21);
    assert_eq!(encoded[1], 0xFF);
    assert_eq!(&encoded[2..], &data[..]);
    assert_eq!(encode_bytes(0x21, &[]), Ok(vec![0x21, 0x00]));
}

#[test]
fn test_builder_add_bytes_too_long() {
    let long_data = vec![0u8; 256];
    let result = TlvBuilder::new().add_bytes(0x01, &long_data);
    assert!(matches!(result, Err(TlvError::ValueTooLong { actual: 256, max: 255 })));
}

#[test]
fn test_tlv_builder_chain() {
    let result = TlvBuilder::new()
        .add_u32(0x01, 8841)
        .add_u32(0x03, 102758186)
        .add_u16(0x05, 127)
        .add_u16(0x06, 33)
        .build();

    let expected = vec![
        0x01, 0x04, 0x89, 0x22, 0x00, 0x00, 0x03, 0x04, 0x2A, 0xF7, 0x1F, 0x06, 0x05, 0x02, 0x7F,
        0x00, 0x06, 0x02, 0x21, 0x00,
    ];
    assert_eq!(result, expected);
}

#[test]
fn test_tlv_builder_with_bytes() {
    let result = TlvBuilder::new().add_u32(0x01, 8841).add_bytes(0x0A, b"FL-94890").unwrap().build();

    let expected = vec![
        0x01, 0x04, 0x89, 0x22, 0x00, 0x00, 0x0A, 0x08, b'F', b'L', b'-', b'9', b'4', b'8', b'9',
        b'0',
    ];
    assert_eq!(result, expected);
}

#[test]
fn test_tlv_builder_status_message() {
    let result = TlvBuilder::new()
        .add_u16(0x01, 53)
        .add_i16(0x07, 16)
        .add_u8(0x06, 1)
        .add_u8(0x0A, 0)
        .add_u32(0x81, 0x000C00D0)
        .build();

    let expected = vec![
        0x01, 0x02, 0x35, 0x00, 0x07, 0x02, 0x10, 0x00, 0x06, 0x01, 0x01, 0x0A, 0x01, 0x00, 0x81,
        0x04, 0xD0, 0x00, 0x0C, 0x00,
    ];
    assert_eq!(result, expected);
}

#[test]
fn test_tlv_builder_empty_and_u64() {
    assert_eq!(TlvBuilder::new().build(), Vec::<u8>::new());
    assert_eq!(TlvBuilder::default().add_u64(0x04, 1).build(), vec![0x04, 0x08, 1, 0, 0, 0, 0, 0, 0, 0]);
}

#[test]
fn test_tlv_encode_then_decode_yields_fields() {
    let fields = vec![
        TlvField { tag: 0x01, value: vec![0x89, 0x22, 0x00, 0x00] },
        TlvField { tag: 0x0A, value: b"FL-94890".to_vec() },
        TlvField { tag: 0x7E, value: vec![] },
        TlvField { tag: 0xFF, value: vec![0x8D; 255] },
        TlvField { tag: 0x01, value: vec![0x00] },
    ];
    let mut builder = TlvBuilder::new();
    for f in &fields {
        builder = builder.add_bytes(f.tag, &f.value).unwrap();
    }
    let body = builder.build();
    assert_eq!(TlvDecoder::new().decode(&body), Ok(fields));
}

#[test]
fn test_build_status_basic() {
    let message = build_status(53, 16, 1, 0, 0x000C00D0);

    assert_eq!(message[0], SOR);
    assert_eq!(message[message.len() - 1], EOR);
    assert_eq!(message[1], VERSION);
    assert!(validate_crc(&message).unwrap());
}

#[test]
fn test_build_status_bytes_and_parse() {
    let message = build_status(59, 10, 1, 0, 0x000C00D0);
    assert_eq!(
        message,
        vec![
            0x8E, 0x02, 0x1F, 0x00, 0x18, 0xC3, 0x00, 0x00, 0x02, 0x00, 0x01, 0x02, 0x3B, 0x00,
            0x07, 0x02, 0x0A, 0x00, 0x06, 0x01, 0x01, 0x0A, 0x01, 0x00, 0x81, 0x04, 0xD0, 0x00,
            0x0C, 0x00, 0x8F,
        ]
    );
    assert_eq!(
        Parser::new().parse(&message),
        Ok(Message::Status(StatusMessage {
            noise: 59,
            gps_status: 1,
            temperature: 10,
            satellites: 0,
            decoder_id: Some("D0000C00".to_string()),
        }))
    );
}

#[test]
fn test_build_passing_rider() {
    let string = b"FL-94890";
    let message =
        build_rider_passing(8841, 102758186, string, 0x0006426530063546, 127, 33, 0x000C00D0)
            .unwrap();

    assert_eq!(message[0], SOR);
    assert_eq!(message[message.len() - 1], EOR);
    assert!(validate_crc(&message).unwrap());
}

#[test]
fn test_build_passing_rider_matches_capture() {
    let message =
        build_rider_passing(8857, 102758186, b"FL-94890", 0x00064266_08CA0185, 133, 29, 0x000C00D0)
            .unwrap();
    assert_eq!(
        message,
        vec![
            0x8E, 0x02, 0x3D, 0x00, 0x12, 0x85, 0x00, 0x00, 0x01, 0x00, 0x01, 0x04, 0x99, 0x22,
            0x00, 0x00, 0x03, 0x04, 0x2A, 0xF7, 0x1F, 0x06, 0x0A, 0x08, 0x46, 0x4C, 0x2D, 0x39,
            0x34, 0x38, 0x39, 0x30, 0x05, 0x02, 0x85, 0x00, 0x06, 0x02, 0x1D, 0x00, 0x04, 0x08,
            0x85, 0x01, 0xCA, 0x08, 0x66, 0x42, 0x06, 0x00, 0x08, 0x02, 0x00, 0x00, 0x81, 0x04,
            0xD0, 0x00, 0x0C, 0x00, 0x8F,
        ]
    );
    assert_eq!(
        Parser::new().parse(&message),
        Ok(Message::Passing(PassingMessage {
            passing_number: 8857,
            transponder_id: 102758186,
            rtc_time_us: 0x00064266_08CA0185,
            utc_time_us: None,
            strength: Some(133),
            hits: Some(29),
            transponder_string: Some("FL-94890".to_string()),
            flags: 0,
            decoder_id: Some("D0000C00".to_string()),
        }))
    );
}

#[test]
fn test_build_passing_without_text_and_with_flags() {
    let message = build_passing(1, 2, 3, 4, 5, 0x0102, None, 0x11223344).unwrap();
    assert_eq!(
        Parser::new().parse(&message),
        Ok(Message::Passing(PassingMessage {
            passing_number: 1,
            transponder_id: 2,
            rtc_time_us: 3,
            utc_time_us: None,
            strength: Some(4),
            hits: Some(5),
            transponder_string: None,
            flags: 0x0102,
            decoder_id: Some("44332211".to_string()),
        }))
    );
}

#[test]
fn test_build_passing_gate() {
    let message = build_gate_passing(8855, 9992, 0x0006426606711F54, 0x000C00D0);

    assert_eq!(message[0], SOR);
    assert_eq!(message[message.len() - 1], EOR);
    assert!(validate_crc(&message).unwrap());
}

#[test]
fn test_build_passing_gate_matches_capture() {
    let message = build_gate_passing(8859, 9995, 0x00064266_0ACF34E8, 0x000C00D0);
    assert_eq!(
        message,
        vec![
            0x8E, 0x02, 0x2B, 0x00, 0x22, 0x91, 0x00, 0x00, 0x01, 0x00, 0x01, 0x04, 0x9B, 0x22,
            0x00, 0x00, 0x03, 0x04, 0x0B, 0x27, 0x00, 0x00, 0x04, 0x08, 0xE8, 0x34, 0xCF, 0x0A,
            0x66, 0x42, 0x06, 0x00, 0x08, 0x02, 0x00, 0x00, 0x81, 0x04, 0xD0, 0x00, 0x0C, 0x00,
            0x8F,
        ]
    );
}

#[test]
fn test_build_version() {
    let message = build_version(123456789, "Test Decoder", "1.0.0", 100).unwrap();

    assert_eq!(message[0], SOR);
    assert_eq!(message[message.len() - 1], EOR);
    assert!(validate_crc(&message).unwrap());
}

#[test]
fn test_build_version_parses_back() {
    let message = build_version(123456789, "Test Decoder", "1.0.0", 100).unwrap();
    assert_eq!(
        Parser::new().parse(&message),
        Ok(Message::Version(VersionMessage {
            decoder_id: "15CD5B0700000000".to_string(),
            description: "Test Decoder".to_string(),
            version: "1.0.0".to_string(),
            build: Some(100),
        }))
    );
}

#[test]
fn test_build_version_too_long() {
    let long = "x".repeat(256);
    assert!(matches!(
        build_version(1, &long, "1.0", 1),
        Err(BuilderError::TlvError(TlvError::ValueTooLong { actual: 256, max: 255 }))
    ));
    let longer = "y".repeat(300);
    assert!(matches!(
        build_version(1, "ok", &longer, 1),
        Err(BuilderError::TlvError(TlvError::ValueTooLong { actual: 300, max: 255 }))
    ));
    assert!(matches!(
        build_version(1, &long, &longer, 1),
        Err(BuilderError::TlvError(TlvError::ValueTooLong { actual: 256, max: 255 }))
    ));
    let two_byte_chars = "\u{00e9}".repeat(128);
    assert!(matches!(
        build_version(1, &two_byte_chars, "1.0", 1),
        Err(BuilderError::TlvError(TlvError::ValueTooLong { actual: 256, max: 255 }))
    ));
    assert!(build_version(1, &"z".repeat(255), &"w".repeat(255), 1).is_ok());
}

#[test]
fn test_build_message_escapes_inside_only() {
    let message = build_message(MessageType::Status, vec![0x8E, 0x8F, 0x8D, 0x01]);
    assert_eq!(message[0], 0x8E);
    assert_eq!(*message.last().unwrap(), 0x8F);
    assert_eq!(message[2], 0x0F);
    let inside = &message[1..message.len() - 1];
    assert!(!inside.contains(&0x8E));
    assert!(!inside.contains(&0x8F));
    assert_eq!(find_complete_message(&message), Some(message.len()));
    assert!(validate_crc(&message).unwrap());
    let empty = build_message(MessageType::Version, vec![]);
    assert_eq!(empty[2], 0x0B);
    assert!(validate_crc(&empty).unwrap());
}

#[test]
fn test_build_gate_passing_with_escape() {
    let message = build_gate_passing_with_escape(8975, 9992, 0x000C00D0);
    assert!(validate_crc(&message).unwrap());
    let header_length = u16::from_le_bytes([message[2], message[3]]) as usize;
    assert_eq!(header_length, 43);
    let escapes = message.iter().filter(|b| **b == 0x8D).count();
    assert_eq!(message.len(), header_length + escapes);
    assert_eq!(find_complete_message(&message), Some(message.len()));
    assert_eq!(message, build_gate_passing(8975, 9992, 1762286699916839, 0x000C00D0));
    let escaped = build_gate_passing_with_escape(0x8D8D8D8D, 0x8E8F8A8B, 0x8C8C8C8C);
    assert!(escaped.len() >= 43 + 12);
    assert_eq!(find_complete_message(&escaped), Some(escaped.len()));
    assert!(validate_crc(&escaped).unwrap());
    let mut framer = MessageFramer::new();
    let results = framer.feed(&message);
    assert_eq!(results.len(), 1);
    match &results[0] {
        Ok(Message::Passing(p)) => {
            assert_eq!(p.rtc_time_us, 1762286699916839);
            assert_eq!(p.transponder_id, 9992);
            assert_eq!(p.passing_number, 8975);
        }
        other => panic!("unexpected {:?}", other),
    }
    assert_eq!(framer.pending_len(), 0);
}

#[test]
fn test_system_time_to_micros() {
    let time = UNIX_EPOCH + Duration::from_secs(1609459200);
    let micros = system_time_to_micros(time).unwrap();
    assert_eq!(micros, 1609459200_000000);

    let time = UNIX_EPOCH + Duration::from_micros(1609459200_123456);
    let micros = system_time_to_micros(time).unwrap();
    assert_eq!(micros, 1609459200_123456);
}

#[test]
fn test_system_time_to_micros_error() {
    let time = UNIX_EPOCH - Duration::from_secs(1);
    let result = system_time_to_micros(time);
    assert!(result.is_err());
    assert!(matches!(result, Err(BuilderError::TimeError(_))));
}

#[test]
fn test_current_timestamp_micros() {
    let now = current_timestamp_micros().unwrap();
    let year_2020_micros = 1577836800_000000u64;
    let year_2100_micros = 4102444800_000000u64;

    assert!(
        now > year_2020_micros && now < year_2100_micros,
        "Timestamp should be between 2020 and 2100, got: {}",
        now
    );
}

#[test]
fn test_elapsed_to_micros_counts_whole_microseconds() {
    assert_eq!(elapsed_to_micros(Ok(Duration::from_micros(1_500_000))).unwrap(), 1_500_000);
    assert_eq!(elapsed_to_micros(Ok(Duration::from_nanos(1_999))).unwrap(), 1);
    assert_eq!(elapsed_to_micros(Ok(Duration::from_secs(0))).unwrap(), 0);
}

#[test]
fn test_elapsed_to_micros_keeps_the_low_64_bits() {
    let span = Duration::from_secs(u64::MAX);
    let expected = (span.as_micros() % (1u128 << 64)) as u64;
    assert_eq!(elapsed_to_micros(Ok(span)).unwrap(), expected);
}

#[test]
fn test_elapsed_to_micros_hands_on_a_failed_measurement() {
    let early = UNIX_EPOCH - Duration::from_secs(3);
    let failed = early.duration_since(UNIX_EPOCH);
    assert!(failed.is_err());
    match elapsed_to_micros(failed) {
        Err(BuilderError::TimeError(e)) => assert_eq!(e.duration(), Duration::from_secs(3)),
        other => panic!("unexpected {:?}", other),
    }
}

#[test]
fn test_micros_to_system_time_converts_back() {
    for micros in [0u64, 1, 999_999, 1_000_000, 1762286699916839] {
        match micros_to_system_time(micros) {
            Some(time) => assert_eq!(system_time_to_micros(time).unwrap(), micros),
            None => panic!("no point for {}", micros),
        }
    }
}

#[test]
fn test_micros_to_system_time() {
    let micros = 1609459200_000000u64;
    assert_eq!(micros_to_system_time(micros), Some(UNIX_EPOCH + Duration::from_micros(micros)));
    assert_eq!(micros_to_system_time(0), Some(UNIX_EPOCH));
    assert_eq!(system_time_to_micros(micros_to_system_time(123_456_789).unwrap()).unwrap(), 123_456_789);
}

#[test]
fn test_micros_to_u64_keeps_low_bits() {
    assert_eq!(micros_to_u64(0), 0);
    assert_eq!(micros_to_u64(u64::MAX as u128), u64::MAX);
    assert_eq!(micros_to_u64(u64::MAX as u128 + 1), 0);
    assert_eq!(micros_to_u64((7u128 << 64) + 42), 42);
}

#[test]
fn test_format_timestamp() {
    assert_eq!(format_timestamp(1609459200_000000), "2021-01-01 00:00:00.000000");
    assert_eq!(format_timestamp(0), "1970-01-01 00:00:00.000000");
    assert_eq!(format_timestamp(1), "1970-01-01 00:00:00.000001");
    assert_eq!(format_timestamp(951_782_399_999_999), "2000-02-28 23:59:59.999999");
    assert_eq!(format_timestamp(951_782_400_000_000), "2000-02-29 00:00:00.000000");
    assert_eq!(format_timestamp(951_868_800_000_000), "2000-03-01 00:00:00.000000");
    assert_eq!(format_timestamp(4_107_456_000_000_000), "2100-02-28 00:00:00.000000");
    assert_eq!(format_timestamp(4_107_542_400_000_000), "2100-03-01 00:00:00.000000");
    assert_eq!(format_timestamp(1762286699916839), "2025-11-04 20:04:59.916839");
    assert_eq!(format_timestamp(253_402_300_799_000_000), "9999-12-31 23:59:59.000000");
    assert_eq!(format_timestamp(253_402_300_800_000_000), "10000-01-01 00:00:00.000000");
}

#[test]
fn test_date_of_days() {
    assert_eq!(date_of_days(0), (1970, 1, 1));
    assert_eq!(date_of_days(58), (1970, 2, 28));
    assert_eq!(date_of_days(59), (1970, 3, 1));
    assert_eq!(date_of_days(365), (1971, 1, 1));
    assert_eq!(date_of_days(789), (1972, 2, 29));
    assert_eq!(date_of_days(11016), (2000, 2, 29));
    assert_eq!(date_of_days(18628), (2021, 1, 1));
    assert_eq!(date_of_days(20396), (2025, 11, 4));
}

#[test]
fn test_build_rider_passing_now() {
    let string = b"FL-94890";
    let message = build_rider_passing_now(8841, 102758186, string, 127, 33, 0x000C00D0).unwrap();

    assert_eq!(message[0], SOR);
    assert_eq!(message[message.len() - 1], EOR);
    assert!(validate_crc(&message).unwrap());
    assert!(message.len() > 40);
}

#[test]
fn test_build_gate_passing_now() {
    let message = build_gate_passing_now(8855, 9992, 0x000C00D0).unwrap();

    assert_eq!(message[0], SOR);
    assert_eq!(message[message.len() - 1], EOR);
    assert!(validate_crc(&message).unwrap());
    assert!(message.len() > 30);
}

#[test]
fn test_frame_whose_length_is_escaped_is_not_framed() {
    let body = vec![0u8; 127];
    let wire = build_message(MessageType::Status, body.clone());
    assert_eq!(&wire[..4], &[0x8E, 0x02, 0x8D, 0xAA]);
    assert!(validate_crc(&wire).unwrap());
    let frame = p3_timing::parser::frame::FrameParser::new().parse(&wire).unwrap();
    assert_eq!(frame.body, body);
    assert_eq!(frame.message_type, MessageType::Status);
    assert_ne!(find_complete_message(&wire), Some(wire.len()));
    let mut framer = MessageFramer::new();
    assert!(framer.feed(&wire).is_empty());
    assert_eq!(framer.pending_len(), wire.len());

    let plain = build_message(MessageType::Status, vec![0u8; 126]);
    assert_eq!(find_complete_message(&plain), Some(plain.len()));
}

#[test]
fn test_built_frames_are_framed_in_order() {
    let first = build_status(53, -16, 1, 0, 0x8D8E8F8A);
    let second = build_gate_passing(0x8A8B8C8D, 9992, 0x8F8F_8F8F_8F8F_8F8F, 0x000C00D0);
    let parser = Parser::new();
    let mut stream = first.clone();
    stream.extend_from_slice(&second);
    let mut framer = MessageFramer::new();
    let results = framer.feed(&stream);
    assert_eq!(results, vec![parser.parse(&first), parser.parse(&second)]);
    assert_eq!(framer.pending_len(), 0);
    assert_eq!(
        results[0],
        Ok(Message::Status(StatusMessage {
            noise: 53,
            gps_status: 1,
            temperature: -16,
            satellites: 0,
            decoder_id: Some("8A8F8E8D".to_string()),
        }))
    );
    assert_eq!(
        results[1],
        Ok(Message::Passing(PassingMessage {
            passing_number: 0x8A8B8C8D,
            transponder_id: 9992,
            rtc_time_us: 0x8F8F_8F8F_8F8F_8F8F,
            utc_time_us: None,
            strength: None,
            hits: None,
            transponder_string: None,
            flags: 0,
            decoder_id: Some("D0000C00".to_string()),
        }))
    );
    let escapes = second.iter().filter(|b| **b == 0x8D).count();
    assert_eq!(second.len(), 43 + escapes);
    assert!(escapes >= 12);
}
