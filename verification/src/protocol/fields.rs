//! Tags of the TLV fields that P3 messages carry, and reserved transponder ids.

use vstd::prelude::*;

verus! {

/// PASSING: sequential passing counter (u32).
pub const PASSING_NUMBER: u8 = 0x01;

/// PASSING: transponder id (u32).
pub const PASSING_TRANSPONDER: u8 = 0x03;

/// PASSING: decoder clock in microseconds (u64).
pub const PASSING_RTC_TIME: u8 = 0x04;

/// PASSING: signal strength (u16).
pub const PASSING_STRENGTH: u8 = 0x05;

/// PASSING: number of hits (u16).
pub const PASSING_HITS: u8 = 0x06;

/// PASSING: flags (u16).
pub const PASSING_FLAGS: u8 = 0x08;

/// PASSING: transponder text, usually eight ASCII bytes.
pub const PASSING_STRING: u8 = 0x0A;

/// PASSING: GPS time in microseconds (u64).
pub const PASSING_UTC_TIME: u8 = 0x10;

/// PASSING: decoder id, four bytes shown as hex in wire order.
pub const PASSING_DECODER_ID: u8 = 0x81;

/// STATUS: background noise (u16).
pub const STATUS_NOISE: u8 = 0x01;

/// STATUS: GPS status, a single byte.
pub const STATUS_GPS_STATUS: u8 = 0x06;

/// STATUS: temperature in tenths of a degree Celsius (i16).
pub const STATUS_TEMPERATURE: u8 = 0x07;

/// STATUS: satellites in use, a single byte.
pub const STATUS_SATINUSE: u8 = 0x0A;

/// STATUS: decoder id, four bytes shown as hex in wire order.
pub const STATUS_DECODER_ID: u8 = 0x81;

/// VERSION: decoder id, eight bytes shown as hex in wire order.
pub const VERSION_DECODER_ID: u8 = 0x20;

/// VERSION: device description.
pub const VERSION_DESCRIPTION: u8 = 0x21;

/// VERSION: firmware version.
pub const VERSION_VERSION: u8 = 0x22;

/// VERSION: build number (u16).
pub const VERSION_BUILD: u8 = 0x23;

/// Gate beacon of a five-metre start hill.
pub const GATE_DROP_5M: u32 = 9991;

/// Gate beacon of an eight-metre start hill.
pub const GATE_DROP_8M: u32 = 9992;

/// Alternative gate beacon.
pub const GATE_DROP_OTHER: u32 = 9995;

/// Whether a transponder id is one of the reserved gate beacons.
pub open spec fn reserved_id(id: u32) -> bool {
    id == 9991 || id == 9992 || id == 9995
}

/// Tells gate beacons from rider chips.
pub fn is_reserved(id: u32) -> (b: bool)
    ensures
        b == reserved_id(id),
{
    id == GATE_DROP_5M || id == GATE_DROP_8M || id == GATE_DROP_OTHER
}

} // verus!
