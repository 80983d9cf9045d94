//! The state of a simulated decoder.

use vstd::prelude::*;

verus! {

/// What a simulated decoder reports of itself.
#[derive(Debug, Clone, Copy, PartialEq, Eq, Structural)]
pub struct DecoderState {
    /// Serial number of the decoder.
    pub decoder_id: u32,
    /// Number of the last passing sent.
    pub passing_number: u32,
    /// Background noise level.
    pub noise_level: u16,
    /// Temperature in tenths of a degree Celsius.
    pub temperature_celsius_x10: i16,
    /// Whether the GPS has a fix.
    pub gps_has_fix: bool,
    /// GPS satellites in use.
    pub gps_satellites: u8,
}

/// The state of a decoder that has just been switched on.
pub open spec fn initial_state(decoder_id: u32) -> DecoderState {
    DecoderState {
        decoder_id,
        passing_number: 0,
        noise_level: 53,
        temperature_celsius_x10: 16,
        gps_has_fix: true,
        gps_satellites: 0,
    }
}

impl DecoderState {
    /// The state of a decoder that has just been switched on.
    pub fn new(decoder_id: u32) -> (state: Self)
        ensures
            state == initial_state(decoder_id),
    {
        DecoderState {
            decoder_id,
            passing_number: 0,
            noise_level: 53,
            temperature_celsius_x10: 16,
            gps_has_fix: true,
            gps_satellites: 0,
        }
    }

    /// Counts one passing and hands out its number.
    pub fn next_passing_number(&mut self) -> (number: u32)
        requires
            old(self).passing_number < u32::MAX,
        ensures
            number == old(self).passing_number + 1,
            *final(self) == (DecoderState { passing_number: number, ..*old(self) }),
    {
        self.passing_number += 1;
        self.passing_number
    }
}

impl Default for DecoderState {
    fn default() -> (state: Self)
        ensures
            state == initial_state(0x000C00D0),
    {
        DecoderState::new(0x000C00D0)
    }
}

} // verus!
