//! The P3 wire protocol: control bytes, frame layout, escaping and CRC-16.

pub mod types;
pub mod error;
pub mod fields;
pub mod escape;
pub mod crc;
