use p3_timing::protocol::crc::{
    calculate_crc, calculate_message_crc, init_crc16_table, unescape_message, validate_crc,
};
use p3_timing::protocol::error::CrcError;

#[test]
fn test_crc_table() {
    let table = init_crc16_table();
    assert_eq!(table.len(), 256);
    assert_eq!(table[0], 0x0000);
    assert_eq!(table[1], 0x1021);
    assert_eq!(table[255], 0x1EF0);
}

#[test]
fn test_unescape() {
    let escaped = vec![0x01, 0x8D, 0xAF, 0x02];
    let unescaped = unescape_message(&escaped).unwrap();
    assert_eq!(unescaped, vec![0x01, 0x8F, 0x02]);

    let escaped = vec![0x8D, 0xAA, 0x8D, 0xAB, 0x8D, 0xAF];
    let unescaped = unescape_message(&escaped).unwrap();
    assert_eq!(unescaped, vec![0x8A, 0x8B, 0x8F]);

    let escaped = vec![0x01, 0x02, 0x03];
    let unescaped = unescape_message(&escaped).unwrap();
    assert_eq!(unescaped, vec![0x01, 0x02, 0x03]);
}

#[test]
fn test_unescape_malformed() {
    let escaped = vec![0x01, 0x8D, 0x50, 0x02];
    let result = unescape_message(&escaped);
    assert!(matches!(
        result,
        Err(CrcError::MalformedEscape {
            position: 1,
            next_byte: 0x50
        })
    ));
}

#[test]
fn test_unescape_trailing_escape_is_kept() {
    assert_eq!(unescape_message(&[0x01, 0x8D]), Ok(vec![0x01, 0x8D]));
    assert_eq!(unescape_message(&[0x8D]), Ok(vec![0x8D]));
}

#[test]
fn test_unescape_malformed_position_counts_wire_bytes() {
    assert_eq!(
        unescape_message(&[0x8D, 0xAA, 0x07, 0x8D, 0xB0]),
        Err(CrcError::MalformedEscape { position: 3, next_byte: 0xB0 })
    );
    assert_eq!(
        unescape_message(&[0x8D, 0xA9]),
        Err(CrcError::MalformedEscape { position: 0, next_byte: 0xA9 })
    );
}

#[test]
fn test_status_message() {
    let message = vec![
        0x8E, 0x02, 0x1F, 0x00, 0x3D, 0x27, 0x00, 0x00, 0x02, 0x00, 0x01, 0x02, 0x1B, 0x00, 0x07,
        0x02, 0x21, 0x00, 0x0C, 0x01, 0x7A, 0x06, 0x01, 0x00, 0x81, 0x04, 0xFC, 0x05, 0x04, 0x00,
        0x8F,
    ];

    let calculated = calculate_message_crc(&message).unwrap();
    assert_eq!(calculated, 0x273D, "CRC mismatch for status message");
    assert!(validate_crc(&message).unwrap(), "Status message should validate");
}

#[test]
fn test_passing_message() {
    let message = vec![
        0x8E, 0x02, 0x33, 0x00, 0xCF, 0x02, 0x00, 0x00, 0x01, 0x00, 0x01, 0x04, 0xB2, 0x9B, 0x01,
        0x00, 0x03, 0x04, 0x27, 0xFC, 0x70, 0x00, 0x04, 0x08, 0xE8, 0x19, 0xE6, 0xBD, 0x8A, 0x75,
        0x04, 0x00, 0x05, 0x02, 0x33, 0x00, 0x06, 0x02, 0x10, 0x00, 0x08, 0x02, 0x00, 0x00, 0x81,
        0x04, 0xFC, 0x05, 0x04, 0x00, 0x8F,
    ];

    let calculated = calculate_message_crc(&message).unwrap();
    assert_eq!(calculated, 0x02CF, "CRC mismatch for passing message");
    assert!(validate_crc(&message).unwrap(), "Passing message should validate");
}

#[test]
fn test_crc_with_invalid_data() {
    let short_message = vec![0x8E, 0x02, 0x00];
    assert!(validate_crc(&short_message).is_err());

    let bad_crc = vec![0x8E, 0x02, 0x1F, 0x00, 0xFF, 0xFF, 0x00, 0x00, 0x02, 0x00, 0x8F];
    assert_eq!(validate_crc(&bad_crc).unwrap(), false);
}

#[test]
fn test_crc_too_short_reports_sizes() {
    assert_eq!(
        validate_crc(&[0x8E, 0x02, 0x00]),
        Err(CrcError::MessageTooShort { actual: 3, min: 6 })
    );
    assert_eq!(
        calculate_message_crc(&[0x8E, 0x02, 0x8D, 0xAA, 0x00, 0x00]),
        Err(CrcError::MessageTooShort { actual: 5, min: 6 })
    );
    assert_eq!(
        calculate_message_crc(&[0x8E, 0x8D, 0x01]),
        Err(CrcError::MalformedEscape { position: 1, next_byte: 0x01 })
    );
}

#[test]
fn test_crc_bytes_conversion() {
    let crc = 0x273Du16;
    let bytes = crc.to_le_bytes();
    assert_eq!(bytes, [0x3D, 0x27]);

    let crc2 = u16::from_le_bytes([0x3D, 0x27]);
    assert_eq!(crc2, 0x273D);
}

#[test]
fn test_forum_message_with_escape() {
    let message = vec![
        0x8E, 0x02, 0x33, 0x00, 0xEB, 0x1D, 0x00, 0x00, 0x01, 0x00, 0x01, 0x04, 0x9D, 0x09, 0x00,
        0x00, 0x03, 0x04, 0xE4, 0xD2, 0x36, 0x00, 0x04, 0x08, 0x10, 0x79, 0x8D, 0xAF, 0xE4, 0xF2,
        0xCE, 0x04, 0x00, 0x05, 0x02, 0x5F, 0x00, 0x06, 0x02, 0x2E, 0x00, 0x08, 0x02, 0x00, 0x00,
        0x81, 0x04, 0xBE, 0x13, 0x04, 0x00, 0x8F,
    ];

    let unescaped = unescape_message(&message).unwrap();
    assert_eq!(
        unescaped.len(),
        message.len() - 1,
        "Message should be 1 byte shorter after unescaping"
    );

    let calculated = calculate_message_crc(&message).unwrap();
    assert_eq!(calculated, 0x1DEB, "CRC mismatch for forum message with escape");
    assert!(validate_crc(&message).unwrap(), "Forum message should validate");
}

#[test]
fn test_passing_with_escapes_fixture() {
    let message = vec![
        0x8E, 0x02, 0x33, 0x00, 0x83, 0xF5, 0x00, 0x00, 0x01, 0x00, 0x01, 0x04, 0x9D, 0x09, 0x00,
        0x00, 0x03, 0x04, 0xE4, 0xD2, 0x36, 0x00, 0x04, 0x08, 0x10, 0x79, 0x8D, 0xAF, 0xE4, 0xF2,
        0xCE, 0x04, 0x00, 0x05, 0x02, 0x72, 0x00, 0x06, 0x02, 0x27, 0x00, 0x08, 0x02, 0x00, 0x00,
        0x8F,
    ];

    let calculated = calculate_message_crc(&message).unwrap();
    assert_eq!(calculated, 0xF583, "CRC mismatch for passing_with_escapes fixture");
    assert!(validate_crc(&message).unwrap(), "Fixture message should validate");
}

#[test]
fn test_all_escapes_fixture() {
    let message = vec![
        0x8E, 0x02, 0x25, 0x00, 0x57, 0xE9, 0x00, 0x00, 0x02, 0x00, 0x01, 0x02, 0x8D, 0xAA, 0x00,
        0x07, 0x02, 0x8D, 0xAB, 0x00, 0x0C, 0x01, 0x8D, 0xAC, 0x06, 0x01, 0x8D, 0xAD, 0x81, 0x04,
        0x8D, 0xAE, 0x05, 0x04, 0x00, 0x8F,
    ];

    let unescaped = unescape_message(&message).unwrap();
    assert_eq!(
        unescaped.len(),
        message.len() - 5,
        "Message should be 5 bytes shorter after unescaping 5 sequences"
    );

    let calculated = calculate_message_crc(&message).unwrap();
    assert_eq!(calculated, 0xE957, "CRC mismatch for all_escapes fixture");
    assert!(validate_crc(&message).unwrap(), "All escapes fixture should validate");
}

#[test]
fn test_live_captured_status_message() {
    let message = vec![
        0x8E, 0x02, 0x1F, 0x00, 0x18, 0xC3, 0x00, 0x00, 0x02, 0x00, 0x01, 0x02, 0x3B, 0x00, 0x07,
        0x02, 0x0A, 0x00, 0x06, 0x01, 0x01, 0x0A, 0x01, 0x00, 0x81, 0x04, 0xD0, 0x00, 0x0C, 0x00,
        0x8F,
    ];

    let calculated = calculate_message_crc(&message).unwrap();
    assert_eq!(calculated, 0xC318, "CRC mismatch for live captured STATUS message");
    assert!(validate_crc(&message).unwrap(), "Live captured message should validate");
}

#[test]
fn test_live_captured_passing_with_transponder_string() {
    let message = vec![
        0x8E, 0x02, 0x3D, 0x00, 0x12, 0x85, 0x00, 0x00, 0x01, 0x00, 0x01, 0x04, 0x99, 0x22, 0x00,
        0x00, 0x03, 0x04, 0x2A, 0xF7, 0x1F, 0x06, 0x0A, 0x08, 0x46, 0x4C, 0x2D, 0x39, 0x34, 0x38,
        0x39, 0x30, 0x05, 0x02, 0x85, 0x00, 0x06, 0x02, 0x1D, 0x00, 0x04, 0x08, 0x85, 0x01, 0xCA,
        0x08, 0x66, 0x42, 0x06, 0x00, 0x08, 0x02, 0x00, 0x00, 0x81, 0x04, 0xD0, 0x00, 0x0C, 0x00,
        0x8F,
    ];

    let calculated = calculate_message_crc(&message).unwrap();
    assert_eq!(
        calculated, 0x8512,
        "CRC mismatch for live PASSING message with transponder string"
    );
    assert!(validate_crc(&message).unwrap(), "Live PASSING message should validate");
}

#[test]
fn test_live_captured_passing_start_gate() {
    let message = vec![
        0x8E, 0x02, 0x2B, 0x00, 0x22, 0x91, 0x00, 0x00, 0x01, 0x00, 0x01, 0x04, 0x9B, 0x22, 0x00,
        0x00, 0x03, 0x04, 0x0B, 0x27, 0x00, 0x00, 0x04, 0x08, 0xE8, 0x34, 0xCF, 0x0A, 0x66, 0x42,
        0x06, 0x00, 0x08, 0x02, 0x00, 0x00, 0x81, 0x04, 0xD0, 0x00, 0x0C, 0x00, 0x8F,
    ];

    let calculated = calculate_message_crc(&message).unwrap();
    assert_eq!(calculated, 0x9122, "CRC mismatch for live start gate PASSING message");
    assert!(validate_crc(&message).unwrap(), "Live start gate message should validate");
}

#[test]
fn test_empty_crc_is_seed() {
    assert_eq!(calculate_crc(&[]), 0xFFFF);
    assert_eq!(calculate_crc(&[]), calculate_crc(&[]));
}

#[test]
fn test_crc_known_values() {
    assert_eq!(calculate_crc(&[0x00]), 0xE1F0);
    assert_eq!(calculate_crc(&[0x01]), 0xE1F1);
    assert_eq!(calculate_crc(&[0x00, 0x00]), 0x1D0F);
    let data = vec![0x8E, 0x02, 0x0B, 0x00, 0x00, 0x00, 0x00, 0x00, 0x02, 0x00, 0x8F];
    assert_eq!(calculate_crc(&data), calculate_crc(&data));
}

#[test]
fn test_crc_changes_on_modification() {
    let data: Vec<u8> = (0u8..40).map(|i| i.wrapping_mul(37).wrapping_add(11)).collect();
    let unchanged = calculate_crc(&data);
    for pos in 0..data.len() {
        for delta in [1u8, 0x80, 0xFF, 0x21] {
            let mut modified = data.clone();
            modified[pos] = modified[pos].wrapping_add(delta);
            assert_ne!(calculate_crc(&modified), unchanged, "position {}", pos);
        }
    }
}
