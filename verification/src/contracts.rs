//! Contracts between the track client, the ingester and the workers:
//! events, envelopes, subjects of the durable log and idempotency keys.

use vstd::prelude::*;
use vstd::string::StringExecFns;
use crate::parser::messages::Message;
use crate::text::{decimal, hex_digits_lower, push_decimal};

verus! {

/// Contract version of a batch posted by a track client.
pub const TRACK_INGEST_CONTRACT_VERSION_V2: &'static str = "track_ingest.v2";

/// Contract version of an envelope on the raw log.
pub const RAW_INGEST_ENVELOPE_CONTRACT_VERSION_V1: &'static str = "raw_ingest_envelope.v1";

/// Contract version of an envelope on the log of race events.
pub const RACE_EVENTS_ENVELOPE_CONTRACT_VERSION_V1: &'static str = "race_events_envelope.v1";

/// Contract version of an envelope on the log of operator intents.
pub const RACE_CONTROL_INTENT_ENVELOPE_CONTRACT_VERSION_V1: &'static str = "race_control_intent_envelope.v1";

/// The identifier of an event or envelope: the 128 bits of a UUID.
#[derive(Debug, Clone, Copy, PartialEq, Eq, Structural)]
pub struct EventId(pub u128);

/// Who sent an event: the client, its run, and the event's number in that
/// run.
#[derive(Debug, PartialEq, Eq)]
pub struct EventIdContext {
    pub client_id: String,
    /// Minted when the client starts, so that a restart cannot collide
    /// with events still under way.
    pub boot_id: String,
    pub seq: u64,
}

/// One decoder message as a track client sends it.
#[derive(Debug, PartialEq)]
pub struct TrackIngestEvent {
    pub event_id: EventId,
    pub track_id: String,
    pub event_id_context: EventIdContext,
    /// Wall clock of the client at capture.
    pub captured_at_us: u64,
    pub message_type: String,
    pub payload: Message,
}

/// An ingest event on the raw log.
#[derive(Debug, PartialEq)]
pub struct RawIngestEnvelopeV1 {
    pub event_id: EventId,
    pub contract_version: String,
    pub track_id: String,
    pub event_id_context: EventIdContext,
    pub captured_at_us: u64,
    /// Wall clock of the ingester at acceptance.
    pub ingested_at_us: u64,
    pub message_type: String,
    pub payload: Message,
}

#[derive(Debug, PartialEq)]
pub struct StagedRiderV1 {
    pub rider_id: String,
    pub first_name: String,
    pub last_name: String,
    pub plate_number: String,
    pub transponder_id: u32,
    pub lane: u32,
}

#[derive(Debug, PartialEq)]
pub struct RiderPositionV1 {
    pub rider_id: String,
    pub plate_number: String,
    pub first_name: String,
    pub last_name: String,
    pub lane: u32,
    pub position: u32,
    pub last_loop: Option<String>,
    pub elapsed_us: Option<u64>,
    pub gap_to_leader_us: Option<u64>,
    pub finished: bool,
    pub dnf: bool,
}

#[derive(Debug, PartialEq)]
pub struct FinishResultV1 {
    pub rider_id: String,
    pub plate_number: String,
    pub first_name: String,
    pub last_name: String,
    pub position: u32,
    pub elapsed_us: Option<u64>,
    pub gap_to_leader_us: Option<u64>,
    pub dnf: bool,
    pub dns: bool,
}

#[derive(Debug, PartialEq)]
pub struct LoopConfigV1 {
    pub loop_id: String,
    pub name: String,
    pub decoder_id: String,
    pub position: u32,
    pub is_start: bool,
    pub is_finish: bool,
}

#[derive(Debug, PartialEq)]
pub struct TrackConfigV1 {
    pub track_id: String,
    pub name: String,
    pub gate_beacon_id: u32,
    pub loops: Vec<LoopConfigV1>,
}

/// The payload of an envelope on the log of race events.
#[allow(inconsistent_fields)]
#[derive(Debug, PartialEq)]
pub enum RaceEventPayloadV1 {
    DecoderMessage { message: Message },
    RaceStaged { moto_id: String, class_name: String, round_type: String, riders: Vec<StagedRiderV1> },
    GateDrop { moto_id: String, timestamp_us: u64 },
    SplitTime {
        moto_id: String,
        rider_id: String,
        loop_name: String,
        is_finish: bool,
        elapsed_us: u64,
        position: u32,
        gap_to_leader_us: Option<u64>,
    },
    PositionsUpdate { moto_id: String, positions: Vec<RiderPositionV1> },
    RiderFinished {
        moto_id: String,
        rider_id: String,
        finish_position: u32,
        elapsed_us: u64,
        gap_to_leader_us: Option<u64>,
    },
    RaceFinished { moto_id: String, results: Vec<FinishResultV1> },
    RaceReset,
    StateSnapshot {
        phase: String,
        moto_id: Option<String>,
        class_name: Option<String>,
        round_type: Option<String>,
        riders: Vec<StagedRiderV1>,
        positions: Vec<RiderPositionV1>,
        gate_drop_time_us: Option<u64>,
        finished_count: u32,
        total_riders: u32,
    },
}

/// What the operator asks of the race engine.
#[derive(Debug, PartialEq)]
pub enum RaceControlIntentV1 {
    Stage {
        track_config: TrackConfigV1,
        moto_id: String,
        class_name: String,
        round_type: String,
        riders: Vec<StagedRiderV1>,
    },
    Reset,
    ForceFinish,
}

/// An operator intent on the control log.
#[derive(Debug, PartialEq)]
pub struct RaceControlIntentEnvelopeV1 {
    pub event_id: EventId,
    pub contract_version: String,
    pub track_id: String,
    pub ts_us: u64,
    pub intent: RaceControlIntentV1,
}

/// A race event on the log of race events.
#[derive(Debug, PartialEq)]
pub struct RaceEventEnvelopeV1 {
    pub event_id: EventId,
    pub contract_version: String,
    pub track_id: String,
    /// The raw or control event that caused this one.
    pub source_event_id: EventId,
    /// The time of the causing event.
    pub ts_us: u64,
    pub payload: RaceEventPayloadV1,
}

/// Kind of an envelope sent to a dashboard.
#[derive(Debug, Clone, Copy, PartialEq, Eq, PartialOrd, Ord, Structural)]
pub enum LiveEnvelopeKindV1 {
    Snapshot,
    Event,
    Heartbeat,
    Error,
}

/// Channel of an envelope sent to a dashboard.
#[derive(Debug, Clone, Copy, PartialEq, Eq, PartialOrd, Ord, Structural)]
pub enum LiveChannelV1 {
    Decoder,
    Race,
    Unknown,
}

/// An envelope sent to a dashboard; `seq` counts up per socket.
#[derive(Debug, Clone)]
pub struct LiveEnvelopeV1<T> {
    pub kind: LiveEnvelopeKindV1,
    pub channel: LiveChannelV1,
    pub track_id: String,
    pub event_id: Option<String>,
    pub seq: u64,
    pub ts_us: u64,
    pub payload: T,
}

#[derive(Debug, PartialEq)]
pub struct DecoderStatusRowV1 {
    pub loop_id: String,
    pub loop_name: String,
    pub loop_position: i64,
    pub decoder_id: String,
    pub noise: Option<i64>,
    pub temperature: Option<i64>,
    pub gps_status: Option<i64>,
    pub satellites: Option<i64>,
    pub last_seen: Option<String>,
}

#[derive(Debug, PartialEq)]
pub struct DecoderSnapshotPayloadV1 {
    pub rows: Vec<DecoderStatusRowV1>,
}

#[derive(Debug, PartialEq)]
pub struct DecoderEventPayloadV1 {
    pub message: Message,
    pub source_event_id: EventId,
}

#[derive(Debug, Clone, PartialEq)]
pub struct LiveErrorPayloadV1 {
    pub code: String,
    pub message: String,
    pub channel: Option<String>,
}

#[derive(Debug, Clone, Copy, Default, PartialEq, Eq)]
pub struct EmptyPayloadV1 {}

/// A batch of events posted by a track client.
#[derive(Debug, PartialEq)]
pub struct TrackIngestBatchRequest {
    pub contract_version: String,
    pub track_id: String,
    pub events: Vec<TrackIngestEvent>,
}

/// The answer to a batch: how many events were new and how many the log
/// had seen before.
#[derive(Debug, Clone, Copy, PartialEq, Eq, Structural)]
pub struct TrackIngestBatchResponse {
    pub accepted: usize,
    pub duplicates: usize,
}

impl Clone for EventIdContext {
    fn clone(&self) -> (r: Self)
        ensures
            r == *self,
    {
        EventIdContext {
            client_id: self.client_id.clone(),
            boot_id: self.boot_id.clone(),
            seq: self.seq,
        }
    }
}

impl Clone for TrackIngestEvent {
    fn clone(&self) -> (r: Self)
        ensures
            r == *self,
    {
        TrackIngestEvent {
            event_id: self.event_id,
            track_id: self.track_id.clone(),
            event_id_context: self.event_id_context.clone(),
            captured_at_us: self.captured_at_us,
            message_type: self.message_type.clone(),
            payload: self.payload.clone(),
        }
    }
}

impl Clone for RawIngestEnvelopeV1 {
    fn clone(&self) -> (r: Self)
        ensures
            r == *self,
    {
        RawIngestEnvelopeV1 {
            event_id: self.event_id,
            contract_version: self.contract_version.clone(),
            track_id: self.track_id.clone(),
            event_id_context: self.event_id_context.clone(),
            captured_at_us: self.captured_at_us,
            ingested_at_us: self.ingested_at_us,
            message_type: self.message_type.clone(),
            payload: self.payload.clone(),
        }
    }
}

impl Clone for StagedRiderV1 {
    fn clone(&self) -> (r: Self)
        ensures
            r == *self,
    {
        StagedRiderV1 {
            rider_id: self.rider_id.clone(),
            first_name: self.first_name.clone(),
            last_name: self.last_name.clone(),
            plate_number: self.plate_number.clone(),
            transponder_id: self.transponder_id,
            lane: self.lane,
        }
    }
}

/// The type tag of a message: "PASSING", "STATUS" or "VERSION".
pub open spec fn message_type_tag(message: Message) -> Seq<char> {
    match message {
        Message::Passing(_) => "PASSING"@,
        Message::Status(_) => "STATUS"@,
        Message::Version(_) => "VERSION"@,
    }
}

/// The idempotency key of an event: `track_id:client_id:boot_id:seq`, the
/// number in decimal.
pub open spec fn idempotency_key(
    track_id: Seq<char>,
    client_id: Seq<char>,
    boot_id: Seq<char>,
    seq: u64,
) -> Seq<char> {
    track_id + seq![':'] + client_id + seq![':'] + boot_id + seq![':'] + decimal(seq as nat)
}

/// Subject of the raw log for a track.
pub open spec fn raw_ingest_subject(track_id: Seq<char>) -> Seq<char> {
    "raw."@ + track_id
}

/// Subject of the log of race events for a track.
pub open spec fn race_events_subject(track_id: Seq<char>) -> Seq<char> {
    "events."@ + track_id
}

/// Subject of the log of operator intents for a track.
pub open spec fn race_control_subject(track_id: Seq<char>) -> Seq<char> {
    "control."@ + track_id
}

/// Hexadecimal digit `n` of 32, counted from the most significant, of a
/// 128-bit value.
pub open spec fn hex_digit_of(value: u128, n: int) -> char {
    hex_digits_lower()[((value >> ((4 * (31 - n)) as u128)) & 0xF) as int]
}

/// The text of an event id: the 32 lower-case hexadecimal digits of the
/// value, most significant first, in groups of 8, 4, 4, 4 and 12 joined by
/// hyphens.
pub open spec fn event_id_text(value: u128) -> Seq<char> {
    Seq::new(
        36,
        |i: int|
            if i == 8 || i == 13 || i == 18 || i == 23 {
                '-'
            } else if i < 8 {
                hex_digit_of(value, i)
            } else if i < 13 {
                hex_digit_of(value, i - 1)
            } else if i < 18 {
                hex_digit_of(value, i - 2)
            } else if i < 23 {
                hex_digit_of(value, i - 3)
            } else {
                hex_digit_of(value, i - 4)
            },
    )
}

impl EventId {
    /// Mints a random event id, a version 4 UUID.
    ///
    /// Trusted: calls `Uuid::new_v4` of the crate uuid and takes the value
    /// with `Uuid::as_u128`. The contract states only what the crate sets
    /// in every such id: the version digit 4 and the two variant bits.
    #[verifier::external_body]
    pub(crate) fn random() -> (id: EventId)
        ensures
            id.0 & 0x0000_0000_0000_F000_C000_0000_0000_0000u128
                == 0x0000_0000_0000_4000_8000_0000_0000_0000u128,
    {
        EventId(uuid::Uuid::new_v4().as_u128())
    }

    /// Writes the id as a UUID in hyphenated lower-case form.
    ///
    /// Trusted: calls the `Display` of `Uuid` of the crate uuid on
    /// `Uuid::from_u128` of the value. The contract states the text in
    /// full.
    #[verifier::external_body]
    pub(crate) fn format(&self) -> (s: String)
        ensures
            s@ == event_id_text(self.0),
    {
        uuid::Uuid::from_u128(self.0).to_string()
    }

    /// Mints a random event id.
    pub fn new_random() -> (id: EventId)
        ensures
            id.0 & 0x0000_0000_0000_F000_C000_0000_0000_0000u128
                == 0x0000_0000_0000_4000_8000_0000_0000_0000u128,
    {
        EventId::random()
    }

    /// The text of the id, as a hyphenated UUID.
    pub fn to_text(&self) -> (s: String)
        ensures
            s@ == event_id_text(self.0),
            s@.len() == 36,
    {
        self.format()
    }
}

/// Names the type of a message.
pub fn message_type_from_message(message: &Message) -> (tag: &'static str)
    ensures
        tag@ == message_type_tag(*message),
{
    match message {
        Message::Passing(_) => "PASSING",
        Message::Status(_) => "STATUS",
        Message::Version(_) => "VERSION",
    }
}

/// Builds the idempotency key of an event: the sole criterion by which the
/// durable log suppresses duplicates.
pub fn build_idempotency_key(track_id: &str, context: &EventIdContext) -> (key: String)
    ensures
        key@ == idempotency_key(track_id@, context.client_id@, context.boot_id@, context.seq),
{
    proof {
        reveal_strlit(":");
    }
    let mut key = String::from_str(track_id);
    key.append(":");
    key.append(context.client_id.as_str());
    key.append(":");
    key.append(context.boot_id.as_str());
    key.append(":");
    push_decimal(&mut key, context.seq);
    assert(key@ =~= idempotency_key(
        track_id@,
        context.client_id@,
        context.boot_id@,
        context.seq,
    ));
    key
}

/// Builds the subject of the raw log for a track.
pub fn build_raw_ingest_subject(track_id: &str) -> (subject: String)
    ensures
        subject@ == raw_ingest_subject(track_id@),
{
    String::from_str("raw.").concat(track_id)
}

/// Builds the subject of the log of race events for a track.
pub fn build_race_events_subject(track_id: &str) -> (subject: String)
    ensures
        subject@ == race_events_subject(track_id@),
{
    String::from_str("events.").concat(track_id)
}

/// Builds the subject of the log of operator intents for a track.
pub fn build_race_control_subject(track_id: &str) -> (subject: String)
    ensures
        subject@ == race_control_subject(track_id@),
{
    String::from_str("control.").concat(track_id)
}

/// Whether an envelope is the raw envelope of an event, accepted at a given
/// time.
pub open spec fn is_raw_envelope_of(
    envelope: RawIngestEnvelopeV1,
    event: TrackIngestEvent,
    ingested_at_us: u64,
) -> bool {
    &&& envelope.event_id == event.event_id
    &&& envelope.contract_version@ == "raw_ingest_envelope.v1"@
    &&& envelope.track_id == event.track_id
    &&& envelope.event_id_context == event.event_id_context
    &&& envelope.captured_at_us == event.captured_at_us
    &&& envelope.ingested_at_us == ingested_at_us
    &&& envelope.message_type == event.message_type
    &&& envelope.payload == event.payload
}

/// Wraps an event for the raw log: the event as it is, with the contract
/// version and the time of acceptance.
pub fn build_raw_ingest_envelope_v1(event: &TrackIngestEvent, ingested_at_us: u64) -> (envelope:
    RawIngestEnvelopeV1)
    ensures
        is_raw_envelope_of(envelope, *event, ingested_at_us),
{
    RawIngestEnvelopeV1 {
        event_id: event.event_id,
        contract_version: String::from_str(RAW_INGEST_ENVELOPE_CONTRACT_VERSION_V1),
        track_id: event.track_id.clone(),
        event_id_context: event.event_id_context.clone(),
        captured_at_us: event.captured_at_us,
        ingested_at_us,
        message_type: event.message_type.clone(),
        payload: event.payload.clone(),
    }
}

/// Whether an envelope carries the decoder message of a raw envelope to
/// the log of race events under a given id.
pub open spec fn is_decoder_message_envelope(
    envelope: RaceEventEnvelopeV1,
    event_id: EventId,
    raw: RawIngestEnvelopeV1,
) -> bool {
    &&& envelope.event_id == event_id
    &&& envelope.contract_version@ == "race_events_envelope.v1"@
    &&& envelope.track_id == raw.track_id
    &&& envelope.source_event_id == raw.event_id
    &&& envelope.ts_us == raw.captured_at_us
    &&& envelope.payload == (RaceEventPayloadV1::DecoderMessage { message: raw.payload })
}

/// Wraps the decoder message of a raw envelope for the log of race events,
/// under a given id. The time is that of the raw event.
pub fn race_event_envelope_v1_from_raw(event_id: EventId, raw: &RawIngestEnvelopeV1) -> (envelope:
    RaceEventEnvelopeV1)
    ensures
        is_decoder_message_envelope(envelope, event_id, *raw),
{
    RaceEventEnvelopeV1 {
        event_id,
        contract_version: String::from_str(RACE_EVENTS_ENVELOPE_CONTRACT_VERSION_V1),
        track_id: raw.track_id.clone(),
        source_event_id: raw.event_id,
        ts_us: raw.captured_at_us,
        payload: RaceEventPayloadV1::DecoderMessage { message: raw.payload.clone() },
    }
}

/// Wraps the decoder message of a raw envelope for the log of race events,
/// under an id minted for it.
pub fn build_race_event_envelope_v1_from_raw(raw: &RawIngestEnvelopeV1) -> (envelope:
    RaceEventEnvelopeV1)
    ensures
        is_decoder_message_envelope(envelope, envelope.event_id, *raw),
{
    race_event_envelope_v1_from_raw(EventId::new_random(), raw)
}

/// Wraps an operator intent for the control log of a track, under a given
/// id and with the time it was given.
pub fn control_intent_envelope(
    event_id: EventId,
    track_id: String,
    ts_us: u64,
    intent: RaceControlIntentV1,
) -> (envelope: RaceControlIntentEnvelopeV1)
    ensures
        envelope.event_id == event_id,
        envelope.contract_version@ == "race_control_intent_envelope.v1"@,
        envelope.track_id == track_id,
        envelope.ts_us == ts_us,
        envelope.intent == intent,
{
    RaceControlIntentEnvelopeV1 {
        event_id,
        contract_version: String::from_str(RACE_CONTROL_INTENT_ENVELOPE_CONTRACT_VERSION_V1),
        track_id,
        ts_us,
        intent,
    }
}

/// Wraps an operator intent for the control log of a track, under an id
/// minted for it.
pub fn build_control_intent_envelope(track_id: String, ts_us: u64, intent: RaceControlIntentV1) -> (envelope:
    RaceControlIntentEnvelopeV1)
    ensures
        envelope.contract_version@ == "race_control_intent_envelope.v1"@,
        envelope.track_id == track_id,
        envelope.ts_us == ts_us,
        envelope.intent == intent,
{
    control_intent_envelope(EventId::new_random(), track_id, ts_us, intent)
}

} // verus!
