//! Generation of P3 wire frames, as a decoder would send them.

pub mod tlv;
pub mod builder;
pub mod timestamp;
pub mod laws;
