//! The race worker's decisions: which race events a raw or control
//! envelope yields, and under which idempotency keys they are published.
//!
//! The worker itself consumes the logs, publishes what is decided here and
//! acknowledges a message when all its publications went through.

use vstd::prelude::*;
use vstd::string::StringExecFns;
use crate::contracts::{
    event_id_text,
    EventId,
    FinishResultV1,
    LoopConfigV1,
    RaceControlIntentEnvelopeV1,
    RaceControlIntentV1,
    RaceEventEnvelopeV1,
    RaceEventPayloadV1,
    RawIngestEnvelopeV1,
    RiderPositionV1,
    StagedRiderV1,
    TrackConfigV1,
    RACE_EVENTS_ENVELOPE_CONTRACT_VERSION_V1,
};
use crate::engine::model::{
    accepts_stage,
    force_finished,
    passing_step,
    reset,
    results,
    snapshot,
    staged,
    well_formed,
    EngineModel,
    RacePhase,
};
use crate::engine::race_event::{
    event_models,
    FinishResult,
    LoopConfig,
    RaceEvent,
    RaceEventModel,
    RiderPosition,
    StagedRider,
    TrackConfig,
    TrackModel,
};
use crate::engine::state::{with_track, RaceEngine};
use crate::parser::messages::Message;
use crate::text::{decimal, push_decimal};

verus! {

/// The payload of a race event envelope as a mathematical value.
#[allow(inconsistent_fields)]
pub enum PayloadModel {
    DecoderMessage { message: Message },
    RaceStaged { moto_id: String, class_name: String, round_type: String, riders: Seq<StagedRiderV1> },
    GateDrop { moto_id: String, timestamp_us: u64 },
    SplitTime {
        moto_id: String,
        rider_id: String,
        loop_name: String,
        is_finish: bool,
        elapsed_us: u64,
        position: u32,
        gap_to_leader_us: Option<u64>,
    },
    PositionsUpdate { moto_id: String, positions: Seq<RiderPositionV1> },
    RiderFinished {
        moto_id: String,
        rider_id: String,
        finish_position: u32,
        elapsed_us: u64,
        gap_to_leader_us: Option<u64>,
    },
    RaceFinished { moto_id: String, results: Seq<FinishResultV1> },
    RaceReset,
    StateSnapshot {
        phase: Seq<char>,
        moto_id: Option<String>,
        class_name: Option<String>,
        round_type: Option<String>,
        riders: Seq<StagedRiderV1>,
        positions: Seq<RiderPositionV1>,
        gate_drop_time_us: Option<u64>,
        finished_count: u32,
        total_riders: u32,
    },
}

impl View for RaceEventPayloadV1 {
    type V = PayloadModel;

    open spec fn view(&self) -> PayloadModel {
        match *self {
            RaceEventPayloadV1::DecoderMessage { message } => PayloadModel::DecoderMessage {
                message,
            },
            RaceEventPayloadV1::RaceStaged { moto_id, class_name, round_type, riders } => {
                PayloadModel::RaceStaged { moto_id, class_name, round_type, riders: riders@ }
            },
            RaceEventPayloadV1::GateDrop { moto_id, timestamp_us } => PayloadModel::GateDrop {
                moto_id,
                timestamp_us,
            },
            RaceEventPayloadV1::SplitTime {
                moto_id,
                rider_id,
                loop_name,
                is_finish,
                elapsed_us,
                position,
                gap_to_leader_us,
            } => PayloadModel::SplitTime {
                moto_id,
                rider_id,
                loop_name,
                is_finish,
                elapsed_us,
                position,
                gap_to_leader_us,
            },
            RaceEventPayloadV1::PositionsUpdate { moto_id, positions } => {
                PayloadModel::PositionsUpdate { moto_id, positions: positions@ }
            },
            RaceEventPayloadV1::RiderFinished {
                moto_id,
                rider_id,
                finish_position,
                elapsed_us,
                gap_to_leader_us,
            } => PayloadModel::RiderFinished {
                moto_id,
                rider_id,
                finish_position,
                elapsed_us,
                gap_to_leader_us,
            },
            RaceEventPayloadV1::RaceFinished { moto_id, results } => PayloadModel::RaceFinished {
                moto_id,
                results: results@,
            },
            RaceEventPayloadV1::RaceReset => PayloadModel::RaceReset,
            RaceEventPayloadV1::StateSnapshot {
                phase,
                moto_id,
                class_name,
                round_type,
                riders,
                positions,
                gate_drop_time_us,
                finished_count,
                total_riders,
            } => PayloadModel::StateSnapshot {
                phase: phase@,
                moto_id,
                class_name,
                round_type,
                riders: riders@,
                positions: positions@,
                gate_drop_time_us,
                finished_count,
                total_riders,
            },
        }
    }
}

/// A staged rider in contract form.
pub open spec fn staged_v1(r: StagedRider) -> StagedRiderV1 {
    StagedRiderV1 {
        rider_id: r.rider_id,
        first_name: r.first_name,
        last_name: r.last_name,
        plate_number: r.plate_number,
        transponder_id: r.transponder_id,
        lane: r.lane,
    }
}

/// A staged rider in the engine's form.
pub open spec fn staged_domain(r: StagedRiderV1) -> StagedRider {
    StagedRider {
        rider_id: r.rider_id,
        first_name: r.first_name,
        last_name: r.last_name,
        plate_number: r.plate_number,
        transponder_id: r.transponder_id,
        lane: r.lane,
    }
}

/// A place of the running order in contract form.
pub open spec fn position_v1(p: RiderPosition) -> RiderPositionV1 {
    RiderPositionV1 {
        rider_id: p.rider_id,
        plate_number: p.plate_number,
        first_name: p.first_name,
        last_name: p.last_name,
        lane: p.lane,
        position: p.position,
        last_loop: p.last_loop,
        elapsed_us: p.elapsed_us,
        gap_to_leader_us: p.gap_to_leader_us,
        finished: p.finished,
        dnf: p.dnf,
    }
}

/// A result in contract form.
pub open spec fn result_v1(r: FinishResult) -> FinishResultV1 {
    FinishResultV1 {
        rider_id: r.rider_id,
        plate_number: r.plate_number,
        first_name: r.first_name,
        last_name: r.last_name,
        position: r.position,
        elapsed_us: r.elapsed_us,
        gap_to_leader_us: r.gap_to_leader_us,
        dnf: r.dnf,
        dns: r.dns,
    }
}

/// A loop in the engine's form.
pub open spec fn loop_domain(l: LoopConfigV1) -> LoopConfig {
    LoopConfig {
        loop_id: l.loop_id,
        name: l.name,
        decoder_id: l.decoder_id,
        position: l.position,
        is_start: l.is_start,
        is_finish: l.is_finish,
    }
}

/// A loop in contract form.
pub open spec fn loop_v1(l: LoopConfig) -> LoopConfigV1 {
    LoopConfigV1 {
        loop_id: l.loop_id,
        name: l.name,
        decoder_id: l.decoder_id,
        position: l.position,
        is_start: l.is_start,
        is_finish: l.is_finish,
    }
}

/// A track configuration in the engine's form.
pub open spec fn track_domain(t: TrackConfigV1) -> TrackModel {
    TrackModel {
        track_id: t.track_id,
        name: t.name,
        gate_beacon_id: t.gate_beacon_id,
        loops: t.loops@.map_values(|l: LoopConfigV1| loop_domain(l)),
    }
}

/// The payload that carries a race event.
pub open spec fn payload_of(e: RaceEventModel) -> PayloadModel {
    match e {
        RaceEventModel::RaceStaged { moto_id, class_name, round_type, riders } => {
            PayloadModel::RaceStaged {
                moto_id,
                class_name,
                round_type,
                riders: riders.map_values(|r: StagedRider| staged_v1(r)),
            }
        },
        RaceEventModel::GateDrop { moto_id, timestamp_us } => PayloadModel::GateDrop {
            moto_id,
            timestamp_us,
        },
        RaceEventModel::SplitTime {
            moto_id,
            rider_id,
            loop_name,
            is_finish,
            elapsed_us,
            position,
            gap_to_leader_us,
        } => PayloadModel::SplitTime {
            moto_id,
            rider_id,
            loop_name,
            is_finish,
            elapsed_us,
            position,
            gap_to_leader_us,
        },
        RaceEventModel::PositionsUpdate { moto_id, positions } => PayloadModel::PositionsUpdate {
            moto_id,
            positions: positions.map_values(|p: RiderPosition| position_v1(p)),
        },
        RaceEventModel::RiderFinished {
            moto_id,
            rider_id,
            finish_position,
            elapsed_us,
            gap_to_leader_us,
        } => PayloadModel::RiderFinished {
            moto_id,
            rider_id,
            finish_position,
            elapsed_us,
            gap_to_leader_us,
        },
        RaceEventModel::RaceFinished { moto_id, results } => PayloadModel::RaceFinished {
            moto_id,
            results: results.map_values(|r: FinishResult| result_v1(r)),
        },
        RaceEventModel::RaceReset => PayloadModel::RaceReset,
        RaceEventModel::StateSnapshot {
            phase,
            moto_id,
            class_name,
            round_type,
            riders,
            positions,
            gate_drop_time_us,
            finished_count,
            total_riders,
        } => PayloadModel::StateSnapshot {
            phase,
            moto_id,
            class_name,
            round_type,
            riders: riders.map_values(|r: StagedRider| staged_v1(r)),
            positions: positions.map_values(|p: RiderPosition| position_v1(p)),
            gate_drop_time_us,
            finished_count,
            total_riders,
        },
    }
}

/// Puts a staged rider of a contract into the engine's form.
pub fn map_staged_rider(rider: StagedRiderV1) -> (r: StagedRider)
    ensures
        r == staged_domain(rider),
{
    StagedRider {
        rider_id: rider.rider_id,
        first_name: rider.first_name,
        last_name: rider.last_name,
        plate_number: rider.plate_number,
        transponder_id: rider.transponder_id,
        lane: rider.lane,
    }
}

/// Puts a staged rider of the engine into contract form.
pub fn map_staged_rider_from_domain(rider: StagedRider) -> (r: StagedRiderV1)
    ensures
        r == staged_v1(rider),
{
    StagedRiderV1 {
        rider_id: rider.rider_id,
        first_name: rider.first_name,
        last_name: rider.last_name,
        plate_number: rider.plate_number,
        transponder_id: rider.transponder_id,
        lane: rider.lane,
    }
}

/// Puts a staged rider of the engine into contract form, leaving the
/// rider in place.
pub fn map_staged_rider_to_contract(rider: &StagedRider) -> (r: StagedRiderV1)
    ensures
        r == staged_v1(*rider),
{
    StagedRiderV1 {
        rider_id: rider.rider_id.clone(),
        first_name: rider.first_name.clone(),
        last_name: rider.last_name.clone(),
        plate_number: rider.plate_number.clone(),
        transponder_id: rider.transponder_id,
        lane: rider.lane,
    }
}

/// Puts a place of the running order into contract form.
pub fn map_position_from_domain(position: RiderPosition) -> (r: RiderPositionV1)
    ensures
        r == position_v1(position),
{
    RiderPositionV1 {
        rider_id: position.rider_id,
        plate_number: position.plate_number,
        first_name: position.first_name,
        last_name: position.last_name,
        lane: position.lane,
        position: position.position,
        last_loop: position.last_loop,
        elapsed_us: position.elapsed_us,
        gap_to_leader_us: position.gap_to_leader_us,
        finished: position.finished,
        dnf: position.dnf,
    }
}

/// Puts a result into contract form.
pub fn map_result_from_domain(result: FinishResult) -> (r: FinishResultV1)
    ensures
        r == result_v1(result),
{
    FinishResultV1 {
        rider_id: result.rider_id,
        plate_number: result.plate_number,
        first_name: result.first_name,
        last_name: result.last_name,
        position: result.position,
        elapsed_us: result.elapsed_us,
        gap_to_leader_us: result.gap_to_leader_us,
        dnf: result.dnf,
        dns: result.dns,
    }
}

/// Puts a loop of a contract into the engine's form.
pub fn map_loop_config(loop_config: &LoopConfigV1) -> (r: LoopConfig)
    ensures
        r == loop_domain(*loop_config),
{
    LoopConfig {
        loop_id: loop_config.loop_id.clone(),
        name: loop_config.name.clone(),
        decoder_id: loop_config.decoder_id.clone(),
        position: loop_config.position,
        is_start: loop_config.is_start,
        is_finish: loop_config.is_finish,
    }
}

/// Puts a track configuration of a contract into the engine's form; the
/// loops keep their order.
pub fn map_track_config(track_config: &TrackConfigV1) -> (r: TrackConfig)
    ensures
        r@ == track_domain(*track_config),
{
    let mut loops: Vec<LoopConfig> = Vec::new();
    let mut i: usize = 0;
    while i < track_config.loops.len()
        invariant
            i <= track_config.loops@.len(),
            loops@.len() == i,
            forall|k: int| 0 <= k < i ==> loops@[k] == loop_domain(track_config.loops@[k]),
        decreases track_config.loops@.len() - i,
    {
        loops.push(map_loop_config(&track_config.loops[i]));
        i += 1;
    }
    assert(loops@ =~= track_config.loops@.map_values(|l: LoopConfigV1| loop_domain(l)));
    TrackConfig {
        track_id: track_config.track_id.clone(),
        name: track_config.name.clone(),
        gate_beacon_id: track_config.gate_beacon_id,
        loops,
    }
}

/// Puts a track configuration of the engine into contract form; the loops
/// keep their order.
pub fn map_track_config_to_contract(track_config: &TrackConfig) -> (r: TrackConfigV1)
    ensures
        r.track_id == track_config.track_id,
        r.name == track_config.name,
        r.gate_beacon_id == track_config.gate_beacon_id,
        r.loops@ == track_config.loops@.map_values(|l: LoopConfig| loop_v1(l)),
{
    let mut loops: Vec<LoopConfigV1> = Vec::new();
    let mut i: usize = 0;
    while i < track_config.loops.len()
        invariant
            i <= track_config.loops@.len(),
            loops@.len() == i,
            forall|k: int| 0 <= k < i ==> loops@[k] == loop_v1(track_config.loops@[k]),
        decreases track_config.loops@.len() - i,
    {
        let l = &track_config.loops[i];
        loops.push(
            LoopConfigV1 {
                loop_id: l.loop_id.clone(),
                name: l.name.clone(),
                decoder_id: l.decoder_id.clone(),
                position: l.position,
                is_start: l.is_start,
                is_finish: l.is_finish,
            },
        );
        i += 1;
    }
    assert(loops@ =~= track_config.loops@.map_values(|l: LoopConfig| loop_v1(l)));
    TrackConfigV1 {
        track_id: track_config.track_id.clone(),
        name: track_config.name.clone(),
        gate_beacon_id: track_config.gate_beacon_id,
        loops,
    }
}

/// Puts the riders of a contract into the engine's form.
pub fn map_staged_riders(riders: &Vec<StagedRiderV1>) -> (r: Vec<StagedRider>)
    ensures
        r@ == riders@.map_values(|x: StagedRiderV1| staged_domain(x)),
{
    let mut out: Vec<StagedRider> = Vec::new();
    let mut i: usize = 0;
    while i < riders.len()
        invariant
            i <= riders@.len(),
            out@.len() == i,
            forall|k: int| 0 <= k < i ==> out@[k] == staged_domain(riders@[k]),
        decreases riders@.len() - i,
    {
        out.push(map_staged_rider(riders[i].clone()));
        i += 1;
    }
    assert(out@ =~= riders@.map_values(|x: StagedRiderV1| staged_domain(x)));
    out
}

fn riders_to_contract(riders: &Vec<StagedRider>) -> (r: Vec<StagedRiderV1>)
    ensures
        r@ == riders@.map_values(|x: StagedRider| staged_v1(x)),
{
    let mut out: Vec<StagedRiderV1> = Vec::new();
    let mut i: usize = 0;
    while i < riders.len()
        invariant
            i <= riders@.len(),
            out@.len() == i,
            forall|k: int| 0 <= k < i ==> out@[k] == staged_v1(riders@[k]),
        decreases riders@.len() - i,
    {
        out.push(map_staged_rider_to_contract(&riders[i]));
        i += 1;
    }
    assert(out@ =~= riders@.map_values(|x: StagedRider| staged_v1(x)));
    out
}

fn positions_to_contract(positions: &Vec<RiderPosition>) -> (r: Vec<RiderPositionV1>)
    ensures
        r@ == positions@.map_values(|x: RiderPosition| position_v1(x)),
{
    let mut out: Vec<RiderPositionV1> = Vec::new();
    let mut i: usize = 0;
    while i < positions.len()
        invariant
            i <= positions@.len(),
            out@.len() == i,
            forall|k: int| 0 <= k < i ==> out@[k] == position_v1(positions@[k]),
        decreases positions@.len() - i,
    {
        out.push(map_position_from_domain(positions[i].clone()));
        i += 1;
    }
    assert(out@ =~= positions@.map_values(|x: RiderPosition| position_v1(x)));
    out
}

fn results_to_contract(results: &Vec<FinishResult>) -> (r: Vec<FinishResultV1>)
    ensures
        r@ == results@.map_values(|x: FinishResult| result_v1(x)),
{
    let mut out: Vec<FinishResultV1> = Vec::new();
    let mut i: usize = 0;
    while i < results.len()
        invariant
            i <= results@.len(),
            out@.len() == i,
            forall|k: int| 0 <= k < i ==> out@[k] == result_v1(results@[k]),
        decreases results@.len() - i,
    {
        out.push(map_result_from_domain(results[i].clone()));
        i += 1;
    }
    assert(out@ =~= results@.map_values(|x: FinishResult| result_v1(x)));
    out
}

/// Puts a race event into the payload that carries it. Every event has a
/// payload.
pub fn map_domain_event_to_payload(event: RaceEvent) -> (r: Option<RaceEventPayloadV1>)
    ensures
        r matches Some(p) && p@ == payload_of(event@),
{
    Some(
        match event {
            RaceEvent::RaceStaged { moto_id, class_name, round_type, riders } => {
                RaceEventPayloadV1::RaceStaged {
                    moto_id,
                    class_name,
                    round_type,
                    riders: riders_to_contract(&riders),
                }
            },
            RaceEvent::GateDrop { moto_id, timestamp_us } => RaceEventPayloadV1::GateDrop {
                moto_id,
                timestamp_us,
            },
            RaceEvent::SplitTime {
                moto_id,
                rider_id,
                loop_name,
                is_finish,
                elapsed_us,
                position,
                gap_to_leader_us,
            } => RaceEventPayloadV1::SplitTime {
                moto_id,
                rider_id,
                loop_name,
                is_finish,
                elapsed_us,
                position,
                gap_to_leader_us,
            },
            RaceEvent::PositionsUpdate { moto_id, positions } => {
                RaceEventPayloadV1::PositionsUpdate {
                    moto_id,
                    positions: positions_to_contract(&positions),
                }
            },
            RaceEvent::RiderFinished {
                moto_id,
                rider_id,
                finish_position,
                elapsed_us,
                gap_to_leader_us,
            } => RaceEventPayloadV1::RiderFinished {
                moto_id,
                rider_id,
                finish_position,
                elapsed_us,
                gap_to_leader_us,
            },
            RaceEvent::RaceFinished { moto_id, results } => RaceEventPayloadV1::RaceFinished {
                moto_id,
                results: results_to_contract(&results),
            },
            RaceEvent::RaceReset => RaceEventPayloadV1::RaceReset,
            RaceEvent::StateSnapshot {
                phase,
                moto_id,
                class_name,
                round_type,
                riders,
                positions,
                gate_drop_time_us,
                finished_count,
                total_riders,
            } => RaceEventPayloadV1::StateSnapshot {
                phase,
                moto_id,
                class_name,
                round_type,
                riders: riders_to_contract(&riders),
                positions: positions_to_contract(&positions),
                gate_drop_time_us,
                finished_count,
                total_riders,
            },
        },
    )
}

/// What became of a message of the log.
#[derive(Debug, Clone, Copy, PartialEq, Eq, Structural)]
pub enum Handling {
    /// The message could not be read as an envelope.
    Poison,
    /// Everything the message yields has been published or stored.
    Done,
    /// Publishing or storing failed on the way.
    Failed,
}

/// Whether a message is acknowledged: a message that cannot be read is
/// acknowledged and so dropped; one that was handled is acknowledged; one
/// whose handling failed is left for the log to deliver again.
pub open spec fn acknowledged(handling: Handling) -> bool {
    handling != Handling::Failed
}

/// Decides whether to acknowledge a message of the log.
pub fn should_acknowledge(handling: Handling) -> (ack: bool)
    ensures
        ack == acknowledged(handling),
{
    match handling {
        Handling::Poison => true,
        Handling::Done => true,
        Handling::Failed => false,
    }
}

/// A race event to publish: the envelope and the idempotency key to attach
/// as the header of the log message.
#[derive(Debug, PartialEq)]
pub struct Publication {
    pub msg_id: String,
    pub envelope: RaceEventEnvelopeV1,
}

/// The idempotency key of a derived event: track, id of the causing event,
/// and a slot that names the emission.
pub open spec fn derived_key(track_id: Seq<char>, source: EventId, slot: Seq<char>) -> Seq<char> {
    track_id + seq![':'] + event_id_text(source.0) + seq![':'] + slot
}

/// The slot of the decoder message of a raw event.
pub open spec fn decoder_message_slot() -> Seq<char> {
    "decoder_message"@
}

/// The slot of event `index` among those a passing yields.
pub open spec fn passing_slot(index: nat) -> Seq<char> {
    "passing:"@ + decimal(index)
}

/// The slot of emission `index` of a control event.
pub open spec fn control_slot(index: nat, name: Seq<char>) -> Seq<char> {
    "control:"@ + decimal(index) + seq![':'] + name
}

/// Whether a publication carries a payload for a track, caused by a given
/// event at a given time, under a given slot.
pub open spec fn publishes(
    publication: Publication,
    track_id: Seq<char>,
    source: EventId,
    ts_us: u64,
    slot: Seq<char>,
    payload: PayloadModel,
) -> bool {
    &&& publication.msg_id@ == derived_key(track_id, source, slot)
    &&& publication.envelope.contract_version@ == "race_events_envelope.v1"@
    &&& publication.envelope.track_id@ == track_id
    &&& publication.envelope.source_event_id == source
    &&& publication.envelope.ts_us == ts_us
    &&& publication.envelope.payload@ == payload
}

/// Builds the publication of a payload under a slot; the envelope gets an
/// id of its own.
pub fn publication(
    track_id: &str,
    source_event_id: EventId,
    ts_us: u64,
    payload: RaceEventPayloadV1,
    slot: &str,
) -> (p: Publication)
    ensures
        publishes(p, track_id@, source_event_id, ts_us, slot@, payload@),
{
    proof {
        reveal_strlit(":");
    }
    let mut msg_id = String::from_str(track_id);
    msg_id.append(":");
    let source = source_event_id.to_text();
    msg_id.append(source.as_str());
    msg_id.append(":");
    msg_id.append(slot);
    assert(msg_id@ =~= derived_key(track_id@, source_event_id, slot@));
    Publication {
        msg_id,
        envelope: RaceEventEnvelopeV1 {
            event_id: EventId::new_random(),
            contract_version: String::from_str(RACE_EVENTS_ENVELOPE_CONTRACT_VERSION_V1),
            track_id: String::from_str(track_id),
            source_event_id,
            ts_us,
            payload,
        },
    }
}

/// The publication of the decoder message of a raw envelope: the first
/// thing published for every raw event.
pub fn decoder_message_publication(track_id: &str, raw: &RawIngestEnvelopeV1) -> (p: Publication)
    ensures
        publishes(
            p,
            track_id@,
            raw.event_id,
            raw.captured_at_us,
            decoder_message_slot(),
            PayloadModel::DecoderMessage { message: raw.payload },
        ),
{
    publication(
        track_id,
        raw.event_id,
        raw.captured_at_us,
        RaceEventPayloadV1::DecoderMessage { message: raw.payload.clone() },
        "decoder_message",
    )
}

/// Feeds the passing of a raw envelope to the engine and lists the events
/// to publish, each under the slot of its index. A raw envelope that holds
/// no passing leaves the engine alone and yields nothing.
pub fn passing_publications(track_id: &str, engine: &mut RaceEngine, raw: &RawIngestEnvelopeV1) -> (out:
    Vec<Publication>)
    requires
        well_formed(old(engine)@),
    ensures
        well_formed(final(engine)@),
        raw.payload matches Message::Passing(passing) ==> {
            let step = passing_step(old(engine)@, passing);
            &&& final(engine)@ == step.0
            &&& out@.len() == step.1.len()
            &&& forall|i: int|
                0 <= i < out@.len() ==> publishes(
                    #[trigger] out@[i],
                    track_id@,
                    raw.event_id,
                    raw.captured_at_us,
                    passing_slot(i as nat),
                    payload_of(step.1[i]),
                )
        },
        !(raw.payload is Passing) ==> final(engine)@ == old(engine)@ && out@.len() == 0,
{
    let mut out: Vec<Publication> = Vec::new();
    match &raw.payload {
        Message::Passing(passing) => {
            let events = engine.process_passing(passing);
            let ghost step = passing_step(old(engine)@, *passing);
            let mut i: usize = 0;
            proof {
                reveal_strlit("passing:");
            }
            while i < events.len()
                invariant
                    i <= events@.len(),
                    out@.len() == i,
                    event_models(events@) == step.1,
                    "passing:"@.len() == 8,
                    forall|k: int|
                        0 <= k < i ==> publishes(
                            #[trigger] out@[k],
                            track_id@,
                            raw.event_id,
                            raw.captured_at_us,
                            passing_slot(k as nat),
                            payload_of(step.1[k]),
                        ),
                decreases events@.len() - i,
            {
                let payload = match map_domain_event_to_payload(events[i].clone()) {
                    Some(p) => p,
                    None => {
                        proof {
                            assert(false);
                        }
                        RaceEventPayloadV1::RaceReset
                    },
                };
                let mut slot = String::from_str("passing:");
                push_decimal(&mut slot, i as u64);
                proof {
                    assert(event_models(events@)[i as int] == events@[i as int]@);
                    assert(slot@ =~= passing_slot(i as nat));
                }
                out.push(
                    publication(
                        track_id,
                        raw.event_id,
                        raw.captured_at_us,
                        payload,
                        slot.as_str(),
                    ),
                );
                i += 1;
            }
            proof {
                assert(events@.len() == event_models(events@).len());
            }
        },
        _ => {},
    }
    out
}

/// What an operator intent does to the engine.
///
/// A stage intent sets the track and asks the engine to stage the moto;
/// the engine refuses unless it is idle or finished, and the track is set
/// all the same. Reset and force-finish are handed on.
pub open spec fn intent_outcome(m: EngineModel, intent: RaceControlIntentV1) -> EngineModel {
    match intent {
        RaceControlIntentV1::Stage { track_config, moto_id, class_name, round_type, riders } => {
            let on_track = with_track(m, track_domain(track_config));
            if accepts_stage(m.phase) {
                staged(
                    on_track,
                    moto_id,
                    class_name,
                    round_type,
                    riders@.map_values(|x: StagedRiderV1| staged_domain(x)),
                )
            } else {
                on_track
            }
        },
        RaceControlIntentV1::Reset => reset(m),
        RaceControlIntentV1::ForceFinish => if m.phase is Racing {
            force_finished(m)
        } else {
            m
        },
    }
}

/// The event that an operator intent announces, with the name of its slot;
/// `None` when it announces nothing.
///
/// A stage intent announces `RaceStaged`, with the riders of the intent,
/// when the engine is then staged for the moto of the intent. A reset
/// always announces `RaceReset`. A force-finish announces `RaceFinished`
/// when it ended a race.
pub open spec fn intent_announcement(m: EngineModel, intent: RaceControlIntentV1) -> Option<
    (PayloadModel, Seq<char>),
> {
    match intent {
        RaceControlIntentV1::Stage { moto_id, class_name, round_type, riders, .. } => {
            match intent_outcome(m, intent).phase {
                RacePhase::Staged { moto_id: active, .. } => if active@ == moto_id@ {
                    Some(
                        (
                            PayloadModel::RaceStaged {
                                moto_id,
                                class_name,
                                round_type,
                                riders: riders@,
                            },
                            "race_staged"@,
                        ),
                    )
                } else {
                    None
                },
                _ => None,
            }
        },
        RaceControlIntentV1::Reset => Some((PayloadModel::RaceReset, "race_reset"@)),
        RaceControlIntentV1::ForceFinish => if m.phase is Racing {
            Some(
                (
                    PayloadModel::RaceFinished {
                        moto_id: m.phase->Racing_moto_id,
                        results: results(force_finished(m).riders).map_values(
                            |r: FinishResult| result_v1(r),
                        ),
                    },
                    "race_finished"@,
                ),
            )
        } else {
            None
        },
    }
}

/// Whether a stage intent names no more riders than the engine numbers.
pub open spec fn stageable(intent: RaceControlIntentV1) -> bool {
    intent matches RaceControlIntentV1::Stage { riders, .. } ==> riders@.len() < u32::MAX
}

/// Applies an operator intent to the engine and lists the events to
/// publish: the announcement of the intent, if any, and then a snapshot of
/// the state. The slots count the emissions from 0.
///
/// A stage intent with 2^32 - 1 riders or more is not applied; only the
/// snapshot is published.
pub fn control_publications(
    track_id: &str,
    engine: &mut RaceEngine,
    control: &RaceControlIntentEnvelopeV1,
) -> (out: Vec<Publication>)
    requires
        well_formed(old(engine)@),
    ensures
        well_formed(final(engine)@),
        stageable(control.intent) ==> final(engine)@ == intent_outcome(
            old(engine)@,
            control.intent,
        ),
        stageable(control.intent) ==> match intent_announcement(old(engine)@, control.intent) {
            Some((payload, name)) => out@.len() == 2 && publishes(
                out@[0],
                track_id@,
                control.event_id,
                control.ts_us,
                control_slot(0, name),
                payload,
            ) && publishes(
                out@[1],
                track_id@,
                control.event_id,
                control.ts_us,
                control_slot(1, "state_snapshot"@),
                payload_of(snapshot(final(engine)@)),
            ),
            None => out@.len() == 1 && publishes(
                out@[0],
                track_id@,
                control.event_id,
                control.ts_us,
                control_slot(0, "state_snapshot"@),
                payload_of(snapshot(final(engine)@)),
            ),
        },
        !stageable(control.intent) ==> final(engine)@ == old(engine)@ && out@.len() == 1
            && publishes(
            out@[0],
            track_id@,
            control.event_id,
            control.ts_us,
            control_slot(0, "state_snapshot"@),
            payload_of(snapshot(final(engine)@)),
        ),
{
    let mut out: Vec<Publication> = Vec::new();
    proof {
        reveal_strlit("control:");
        reveal_strlit(":");
        reveal_strlit("0");
        reveal_strlit("1");
        reveal_strlit("control:0:race_staged");
        reveal_strlit("control:0:race_reset");
        reveal_strlit("control:0:race_finished");
        reveal_strlit("control:0:state_snapshot");
        reveal_strlit("control:1:state_snapshot");
        reveal_strlit("race_staged");
        reveal_strlit("race_reset");
        reveal_strlit("race_finished");
        reveal_strlit("state_snapshot");
        assert("control:0:race_staged"@ =~= control_slot(0, "race_staged"@));
        assert("control:0:race_reset"@ =~= control_slot(0, "race_reset"@));
        assert("control:0:race_finished"@ =~= control_slot(0, "race_finished"@));
        assert("control:0:state_snapshot"@ =~= control_slot(0, "state_snapshot"@));
        assert("control:1:state_snapshot"@ =~= control_slot(1, "state_snapshot"@));
    }
    match &control.intent {
        RaceControlIntentV1::Stage { track_config, moto_id, class_name, round_type, riders } => {
            if riders.len() < u32::MAX as usize {
                engine.set_track(map_track_config(track_config));
                engine.stage_moto(
                    moto_id.clone(),
                    class_name.clone(),
                    round_type.clone(),
                    map_staged_riders(riders),
                );
                let announce = match engine.phase() {
                    RacePhase::Staged { moto_id: active, .. } => *active == *moto_id,
                    _ => false,
                };
                if announce {
                    let mut copy: Vec<StagedRiderV1> = Vec::new();
                    let mut i: usize = 0;
                    while i < riders.len()
                        invariant
                            i <= riders@.len(),
                            copy@ == riders@.take(i as int),
                        decreases riders@.len() - i,
                    {
                        copy.push(riders[i].clone());
                        assert(copy@ =~= riders@.take(i + 1));
                        i += 1;
                    }
                    assert(riders@.take(i as int) == riders@);
                    out.push(
                        publication(
                            track_id,
                            control.event_id,
                            control.ts_us,
                            RaceEventPayloadV1::RaceStaged {
                                moto_id: moto_id.clone(),
                                class_name: class_name.clone(),
                                round_type: round_type.clone(),
                                riders: copy,
                            },
                            "control:0:race_staged",
                        ),
                    );
                }
            }
        },
        RaceControlIntentV1::Reset => {
            engine.reset();
            out.push(
                publication(
                    track_id,
                    control.event_id,
                    control.ts_us,
                    RaceEventPayloadV1::RaceReset,
                    "control:0:race_reset",
                ),
            );
        },
        RaceControlIntentV1::ForceFinish => {
            match engine.force_finish() {
                Some(event) => {
                    let payload = match map_domain_event_to_payload(event) {
                        Some(p) => p,
                        None => {
                            proof {
                                assert(false);
                            }
                            RaceEventPayloadV1::RaceReset
                        },
                    };
                    out.push(
                        publication(
                            track_id,
                            control.event_id,
                            control.ts_us,
                            payload,
                            "control:0:race_finished",
                        ),
                    );
                },
                None => {},
            }
        },
    }
    let payload = match map_domain_event_to_payload(engine.state_snapshot()) {
        Some(p) => p,
        None => {
            proof {
                assert(false);
            }
            RaceEventPayloadV1::RaceReset
        },
    };
    let slot = if out.len() == 0 {
        "control:0:state_snapshot"
    } else {
        "control:1:state_snapshot"
    };
    out.push(publication(track_id, control.event_id, control.ts_us, payload, slot));
    out
}

} // verus!
