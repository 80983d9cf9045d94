//! Timing core for BMX races fed by MyLaps ProChip "P3" decoders.
//!
//! Decoders at the timing loops of a track send binary frames; a client at
//! the track frames the stream and posts batches to a central ingester,
//! which puts them onto a durable log; a race worker per track turns
//! passings and operator intents into race events.
//!
//! What these parts decide and compute is here, each function with a
//! contract that Verus proves:
//!
//! - `protocol`: control bytes, escaping, CRC-16.
//! - `parser`: frames, TLV fields, typed messages, the stream framer.
//! - `generator`: building frames as a decoder sends them.
//! - `contracts`: events, envelopes, subjects and idempotency keys.
//! - `client`: the track client's pending events and batches.
//! - `ingest`: validation of batches and the answer to a batch.
//! - `engine`: the race state machine and its laws.
//! - `worker`: what the race worker publishes, and under which keys.
//! - `projection`: what the projection worker stores.
//! - `live`: envelopes and channel selection for dashboards.
//! - `race_format`: race formats and moto sheets.
//! - `simulator`: the state of a simulated decoder.
//! - `text`: numbers and bytes as text.
//!
//! Reading sockets, posting, publishing and storing is left to the
//! program around the library.

pub mod protocol;
pub mod parser;
pub mod engine;
pub mod generator;
pub mod text;
pub mod contracts;
pub mod worker;
pub mod ingest;
pub mod race_format;
pub mod client;
pub mod projection;
pub mod simulator;
pub mod live;
