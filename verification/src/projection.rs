//! The projection worker's decisions: what a raw envelope adds to the table
//! of decoder states, and when its log message is acknowledged.

use vstd::prelude::*;
use crate::contracts::{build_idempotency_key, idempotency_key, RawIngestEnvelopeV1};
use crate::parser::messages::Message;

verus! {

/// The state of a decoder to store under its id.
#[derive(Debug, Clone, PartialEq)]
pub struct DecoderStatusUpdate {
    pub decoder_id: String,
    pub noise: i64,
    pub temperature: i64,
    pub gps_status: i64,
    pub satellites: i64,
}

/// What became of a raw envelope in the projection.
#[derive(Debug, Clone, Copy, PartialEq, Eq, Structural)]
pub enum ProcessOutcome {
    /// The envelope was new and has been applied.
    Applied,
    /// The envelope had been applied before.
    Duplicate,
}

/// Whether an update is the decoder state that a raw envelope reports.
pub open spec fn is_update_of(update: DecoderStatusUpdate, envelope: RawIngestEnvelopeV1) -> bool {
    envelope.payload matches Message::Status(status) && status.decoder_id matches Some(id)
        && update.decoder_id == id && update.noise == status.noise && update.temperature
        == status.temperature && update.gps_status == status.gps_status && update.satellites
        == status.satellites
}

/// Whether a raw envelope reports the state of a decoder: it holds a
/// status message with a decoder id.
pub open spec fn reports_status(envelope: RawIngestEnvelopeV1) -> bool {
    envelope.payload matches Message::Status(status) && status.decoder_id is Some
}

/// The key under which the projection remembers an envelope.
pub fn projection_key(envelope: &RawIngestEnvelopeV1) -> (key: String)
    ensures
        key@ == idempotency_key(
            envelope.track_id@,
            envelope.event_id_context.client_id@,
            envelope.event_id_context.boot_id@,
            envelope.event_id_context.seq,
        ),
{
    build_idempotency_key(envelope.track_id.as_str(), &envelope.event_id_context)
}

/// Classifies an envelope by the number of rows that remembering its key
/// added: none for a key remembered before.
pub fn classify_insert(rows_affected: u64) -> (outcome: ProcessOutcome)
    ensures
        outcome == if rows_affected == 0 {
            ProcessOutcome::Duplicate
        } else {
            ProcessOutcome::Applied
        },
{
    if rows_affected == 0 {
        ProcessOutcome::Duplicate
    } else {
        ProcessOutcome::Applied
    }
}

/// Extracts the decoder state that an envelope reports; `None` for any
/// envelope but a status message with a decoder id.
pub fn status_update(envelope: &RawIngestEnvelopeV1) -> (r: Option<DecoderStatusUpdate>)
    ensures
        r is Some <==> reports_status(*envelope),
        r matches Some(update) ==> is_update_of(update, *envelope),
{
    match &envelope.payload {
        Message::Status(status) => match &status.decoder_id {
            Some(id) => Some(
                DecoderStatusUpdate {
                    decoder_id: id.clone(),
                    noise: status.noise as i64,
                    temperature: status.temperature as i64,
                    gps_status: status.gps_status as i64,
                    satellites: status.satellites as i64,
                },
            ),
            None => None,
        },
        _ => None,
    }
}

/// Decides what to store for an envelope whose key has been remembered: a
/// duplicate stores nothing, a new envelope stores the decoder state it
/// reports, if any.
pub fn projection_step(rows_affected: u64, envelope: &RawIngestEnvelopeV1) -> (r: (
    ProcessOutcome,
    Option<DecoderStatusUpdate>,
))
    ensures
        rows_affected == 0 ==> r.0 == ProcessOutcome::Duplicate && r.1 is None,
        rows_affected != 0 ==> r.0 == ProcessOutcome::Applied && (r.1 is Some <==> reports_status(
            *envelope,
        )) && (r.1 matches Some(update) ==> is_update_of(update, *envelope)),
{
    match classify_insert(rows_affected) {
        ProcessOutcome::Duplicate => (ProcessOutcome::Duplicate, None),
        ProcessOutcome::Applied => (ProcessOutcome::Applied, status_update(envelope)),
    }
}

} // verus!
