use p3_timing::protocol::fields::is_reserved;
use p3_timing::protocol::types::{
    u16_from_le, u16_to_le, InvalidMessageType, MessageType, EOR, ESCAPE, HEADER_SIZE,
    MIN_FRAME_SIZE, OFFSET_BODY, OFFSET_CRC, OFFSET_LENGTH, OFFSET_RESERVED, OFFSET_SOR,
    OFFSET_TYPE, OFFSET_VERSION, SIZE_U16_FIELD, SOR,
};

#[test]
fn test_control_bytes() {
    assert_eq!(SOR, 0x8E);
    assert_eq!(EOR, 0x8F);
    assert_eq!(ESCAPE, 0x8D);
}

#[test]
fn test_frame_offsets() {
    assert_eq!(OFFSET_SOR, 0);
    assert_eq!(OFFSET_VERSION, 1);
    assert_eq!(OFFSET_LENGTH, 2);
    assert_eq!(OFFSET_CRC, 4);
    assert_eq!(OFFSET_RESERVED, 6);
    assert_eq!(OFFSET_TYPE, 8);
    assert_eq!(OFFSET_BODY, 10);
}

#[test]
fn test_frame_sizes() {
    assert_eq!(SIZE_U16_FIELD, 2);
    assert_eq!(HEADER_SIZE, 10);
    assert_eq!(MIN_FRAME_SIZE, 11);
    assert_eq!(HEADER_SIZE, OFFSET_BODY, "HEADER_SIZE should equal OFFSET_BODY");
}

#[test]
fn test_message_type_conversion() {
    assert_eq!(MessageType::Passing.to_u16(), 0x0001);
    assert_eq!(MessageType::Status.to_u16(), 0x0002);
    assert_eq!(MessageType::Version.to_u16(), 0x0003);
    assert_eq!(MessageType::Resend.to_u16(), 0x0004);

    assert_eq!(MessageType::from_u16(0x0001), Some(MessageType::Passing));
    assert_eq!(MessageType::from_u16(0x0002), Some(MessageType::Status));
    assert_eq!(MessageType::from_u16(0x9999), None);
}

#[test]
fn test_message_type_from_trait() {
    let value: u16 = MessageType::Passing.into();
    assert_eq!(value, 0x0001);
}

#[test]
fn test_message_type_try_from_valid() {
    assert_eq!(MessageType::try_from(0x0001).unwrap(), MessageType::Passing);
    assert_eq!(MessageType::try_from(0x0002).unwrap(), MessageType::Status);
    assert_eq!(MessageType::try_from(0x0003).unwrap(), MessageType::Version);
    assert_eq!(MessageType::try_from(0x0004).unwrap(), MessageType::Resend);
}

#[test]
fn test_message_type_try_from_invalid() {
    let result = MessageType::try_from(0x9999);
    assert!(result.is_err());
    assert_eq!(result.unwrap_err(), InvalidMessageType(0x9999));
}

#[test]
fn test_message_type_round_trip_all_values() {
    for value in 0u16..=20 {
        match MessageType::from_u16(value) {
            Some(t) => {
                assert!((1..=4).contains(&value));
                assert_eq!(t.to_u16(), value);
            }
            None => assert!(value == 0 || value > 4),
        }
    }
    assert_eq!(MessageType::from_u16(0x0003), Some(MessageType::Version));
    assert_eq!(MessageType::from_u16(0x0004), Some(MessageType::Resend));
    assert_eq!(MessageType::from_u16(0), None);
    assert_eq!(MessageType::from_u16(5), None);
    assert_eq!(MessageType::try_from_u16(5), Err(InvalidMessageType(5)));
}

#[test]
fn test_little_endian_u16() {
    assert_eq!(u16_from_le(0x3D, 0x27), 0x273D);
    assert_eq!(u16_from_le(0xFF, 0xFF), 0xFFFF);
    assert_eq!(u16_from_le(0x00, 0x01), 0x0100);
    assert_eq!(u16_to_le(0x273D), (0x3D, 0x27));
    assert_eq!(u16_to_le(0x0001), (0x01, 0x00));
}

#[test]
fn test_reserved_ids() {
    assert!(is_reserved(9991));
    assert!(is_reserved(9992));
    assert!(is_reserved(9995));
    assert!(!is_reserved(1234567));
    assert!(!is_reserved(102758186));
}

#[test]
fn test_reserved_ids_neighbours() {
    assert!(!is_reserved(9990));
    assert!(!is_reserved(9993));
    assert!(!is_reserved(9994));
    assert!(!is_reserved(9996));
    assert!(!is_reserved(0));
}
