//! Race events and the data the race engine keeps per track and per rider.
//!
//! Types that hold vectors have a model in which the vectors are sequences;
//! the contracts of the engine speak of the models.

use vstd::prelude::*;
use crate::parser::messages::clone_text;

verus! {

/// A rider of a staged moto.
#[derive(Debug, PartialEq)]
pub struct StagedRider {
    pub rider_id: String,
    pub first_name: String,
    pub last_name: String,
    pub plate_number: String,
    pub transponder_id: u32,
    pub lane: u32,
}

/// A rider's place in the running order.
#[derive(Debug, PartialEq)]
pub struct RiderPosition {
    pub rider_id: String,
    pub plate_number: String,
    pub first_name: String,
    pub last_name: String,
    pub lane: u32,
    pub position: u32,
    pub last_loop: Option<String>,
    pub elapsed_us: Option<u64>,
    pub gap_to_leader_us: Option<u64>,
    pub finished: bool,
    pub dnf: bool,
}

/// A rider's result in a finished moto.
#[derive(Debug, PartialEq)]
pub struct FinishResult {
    pub rider_id: String,
    pub plate_number: String,
    pub first_name: String,
    pub last_name: String,
    pub position: u32,
    pub elapsed_us: Option<u64>,
    pub gap_to_leader_us: Option<u64>,
    pub dnf: bool,
    pub dns: bool,
}

/// The time a rider took from gate drop to one timing loop.
#[derive(Debug, PartialEq)]
pub struct SplitRecord {
    pub loop_id: String,
    pub elapsed_us: u64,
}

/// What the engine knows of one rider during a race.
#[derive(Debug, PartialEq)]
pub struct RiderState {
    pub rider_id: String,
    pub first_name: String,
    pub last_name: String,
    pub plate_number: String,
    pub transponder_id: u32,
    pub lane: u32,
    /// Recorded times, one entry per loop reached.
    pub splits: Vec<SplitRecord>,
    /// Position of the loop the rider was last recorded at.
    pub last_loop_position: Option<u32>,
    pub last_loop_name: Option<String>,
    /// Elapsed time at that loop.
    pub last_elapsed_us: Option<u64>,
    pub finish_elapsed_us: Option<u64>,
    pub finish_position: Option<u32>,
    pub finished: bool,
    pub dnf: bool,
}

/// A rider's state as a mathematical value.
pub struct RiderModel {
    pub rider_id: String,
    pub first_name: String,
    pub last_name: String,
    pub plate_number: String,
    pub transponder_id: u32,
    pub lane: u32,
    pub splits: Seq<SplitRecord>,
    pub last_loop_position: Option<u32>,
    pub last_loop_name: Option<String>,
    pub last_elapsed_us: Option<u64>,
    pub finish_elapsed_us: Option<u64>,
    pub finish_position: Option<u32>,
    pub finished: bool,
    pub dnf: bool,
}

impl View for RiderState {
    type V = RiderModel;

    open spec fn view(&self) -> RiderModel {
        RiderModel {
            rider_id: self.rider_id,
            first_name: self.first_name,
            last_name: self.last_name,
            plate_number: self.plate_number,
            transponder_id: self.transponder_id,
            lane: self.lane,
            splits: self.splits@,
            last_loop_position: self.last_loop_position,
            last_loop_name: self.last_loop_name,
            last_elapsed_us: self.last_elapsed_us,
            finish_elapsed_us: self.finish_elapsed_us,
            finish_position: self.finish_position,
            finished: self.finished,
            dnf: self.dnf,
        }
    }
}

/// One timing loop of a track. The decoder that reports its passings
/// identifies it.
#[derive(Debug, PartialEq)]
pub struct LoopConfig {
    pub loop_id: String,
    pub name: String,
    pub decoder_id: String,
    pub position: u32,
    pub is_start: bool,
    pub is_finish: bool,
}

/// Configuration of a track.
#[derive(Debug, PartialEq)]
pub struct TrackConfig {
    pub track_id: String,
    pub name: String,
    pub gate_beacon_id: u32,
    /// Timing loops, in the order of the track.
    pub loops: Vec<LoopConfig>,
}

/// A track configuration as a mathematical value.
pub struct TrackModel {
    pub track_id: String,
    pub name: String,
    pub gate_beacon_id: u32,
    pub loops: Seq<LoopConfig>,
}

impl View for TrackConfig {
    type V = TrackModel;

    open spec fn view(&self) -> TrackModel {
        TrackModel {
            track_id: self.track_id,
            name: self.name,
            gate_beacon_id: self.gate_beacon_id,
            loops: self.loops@,
        }
    }
}

/// What the race engine emits.
#[allow(inconsistent_fields)]
#[derive(Debug, PartialEq)]
pub enum RaceEvent {
    /// A moto is staged and waits for a gate drop.
    RaceStaged { moto_id: String, class_name: String, round_type: String, riders: Vec<StagedRider> },
    /// Gate drop: the race clock starts.
    GateDrop { moto_id: String, timestamp_us: u64 },
    /// A rider crossed a timing loop.
    SplitTime {
        moto_id: String,
        rider_id: String,
        loop_name: String,
        is_finish: bool,
        elapsed_us: u64,
        position: u32,
        gap_to_leader_us: Option<u64>,
    },
    /// The running order after a crossing.
    PositionsUpdate { moto_id: String, positions: Vec<RiderPosition> },
    /// A rider crossed the finish loop for the first time.
    RiderFinished {
        moto_id: String,
        rider_id: String,
        finish_position: u32,
        elapsed_us: u64,
        gap_to_leader_us: Option<u64>,
    },
    /// Every rider finished, or the operator ended the race.
    RaceFinished { moto_id: String, results: Vec<FinishResult> },
    /// The race was reset to idle.
    RaceReset,
    /// The state of the engine, for a client that joins.
    StateSnapshot {
        phase: String,
        moto_id: Option<String>,
        class_name: Option<String>,
        round_type: Option<String>,
        riders: Vec<StagedRider>,
        positions: Vec<RiderPosition>,
        gate_drop_time_us: Option<u64>,
        finished_count: u32,
        total_riders: u32,
    },
}

/// A race event as a mathematical value. The phase of a snapshot is its text.
#[allow(inconsistent_fields)]
pub enum RaceEventModel {
    RaceStaged { moto_id: String, class_name: String, round_type: String, riders: Seq<StagedRider> },
    GateDrop { moto_id: String, timestamp_us: u64 },
    SplitTime {
        moto_id: String,
        rider_id: String,
        loop_name: String,
        is_finish: bool,
        elapsed_us: u64,
        position: u32,
        gap_to_leader_us: Option<u64>,
    },
    PositionsUpdate { moto_id: String, positions: Seq<RiderPosition> },
    RiderFinished {
        moto_id: String,
        rider_id: String,
        finish_position: u32,
        elapsed_us: u64,
        gap_to_leader_us: Option<u64>,
    },
    RaceFinished { moto_id: String, results: Seq<FinishResult> },
    RaceReset,
    StateSnapshot {
        phase: Seq<char>,
        moto_id: Option<String>,
        class_name: Option<String>,
        round_type: Option<String>,
        riders: Seq<StagedRider>,
        positions: Seq<RiderPosition>,
        gate_drop_time_us: Option<u64>,
        finished_count: u32,
        total_riders: u32,
    },
}

impl View for RaceEvent {
    type V = RaceEventModel;

    open spec fn view(&self) -> RaceEventModel {
        match *self {
            RaceEvent::RaceStaged { moto_id, class_name, round_type, riders } => {
                RaceEventModel::RaceStaged { moto_id, class_name, round_type, riders: riders@ }
            },
            RaceEvent::GateDrop { moto_id, timestamp_us } => RaceEventModel::GateDrop {
                moto_id,
                timestamp_us,
            },
            RaceEvent::SplitTime {
                moto_id,
                rider_id,
                loop_name,
                is_finish,
                elapsed_us,
                position,
                gap_to_leader_us,
            } => RaceEventModel::SplitTime {
                moto_id,
                rider_id,
                loop_name,
                is_finish,
                elapsed_us,
                position,
                gap_to_leader_us,
            },
            RaceEvent::PositionsUpdate { moto_id, positions } => RaceEventModel::PositionsUpdate {
                moto_id,
                positions: positions@,
            },
            RaceEvent::RiderFinished {
                moto_id,
                rider_id,
                finish_position,
                elapsed_us,
                gap_to_leader_us,
            } => RaceEventModel::RiderFinished {
                moto_id,
                rider_id,
                finish_position,
                elapsed_us,
                gap_to_leader_us,
            },
            RaceEvent::RaceFinished { moto_id, results } => RaceEventModel::RaceFinished {
                moto_id,
                results: results@,
            },
            RaceEvent::RaceReset => RaceEventModel::RaceReset,
            RaceEvent::StateSnapshot {
                phase,
                moto_id,
                class_name,
                round_type,
                riders,
                positions,
                gate_drop_time_us,
                finished_count,
                total_riders,
            } => RaceEventModel::StateSnapshot {
                phase: phase@,
                moto_id,
                class_name,
                round_type,
                riders: riders@,
                positions: positions@,
                gate_drop_time_us,
                finished_count,
                total_riders,
            },
        }
    }
}

/// The events of a vector as mathematical values.
pub open spec fn event_models(events: Seq<RaceEvent>) -> Seq<RaceEventModel> {
    events.map_values(|e: RaceEvent| e@)
}

/// The states of a vector of riders as mathematical values.
pub open spec fn rider_models(riders: Seq<RiderState>) -> Seq<RiderModel> {
    riders.map_values(|r: RiderState| r@)
}

impl Clone for StagedRider {
    fn clone(&self) -> (r: Self)
        ensures
            r == *self,
    {
        StagedRider {
            rider_id: self.rider_id.clone(),
            first_name: self.first_name.clone(),
            last_name: self.last_name.clone(),
            plate_number: self.plate_number.clone(),
            transponder_id: self.transponder_id,
            lane: self.lane,
        }
    }
}

impl Clone for RiderPosition {
    fn clone(&self) -> (r: Self)
        ensures
            r == *self,
    {
        RiderPosition {
            rider_id: self.rider_id.clone(),
            plate_number: self.plate_number.clone(),
            first_name: self.first_name.clone(),
            last_name: self.last_name.clone(),
            lane: self.lane,
            position: self.position,
            last_loop: clone_text(&self.last_loop),
            elapsed_us: self.elapsed_us,
            gap_to_leader_us: self.gap_to_leader_us,
            finished: self.finished,
            dnf: self.dnf,
        }
    }
}

impl Clone for FinishResult {
    fn clone(&self) -> (r: Self)
        ensures
            r == *self,
    {
        FinishResult {
            rider_id: self.rider_id.clone(),
            plate_number: self.plate_number.clone(),
            first_name: self.first_name.clone(),
            last_name: self.last_name.clone(),
            position: self.position,
            elapsed_us: self.elapsed_us,
            gap_to_leader_us: self.gap_to_leader_us,
            dnf: self.dnf,
            dns: self.dns,
        }
    }
}

impl Clone for SplitRecord {
    fn clone(&self) -> (r: Self)
        ensures
            r == *self,
    {
        SplitRecord { loop_id: self.loop_id.clone(), elapsed_us: self.elapsed_us }
    }
}

impl Clone for LoopConfig {
    fn clone(&self) -> (r: Self)
        ensures
            r == *self,
    {
        LoopConfig {
            loop_id: self.loop_id.clone(),
            name: self.name.clone(),
            decoder_id: self.decoder_id.clone(),
            position: self.position,
            is_start: self.is_start,
            is_finish: self.is_finish,
        }
    }
}

/// Copies a list of staged riders.
pub fn clone_staged_riders(riders: &Vec<StagedRider>) -> (r: Vec<StagedRider>)
    ensures
        r@ == riders@,
{
    let mut out: Vec<StagedRider> = Vec::new();
    let mut i: usize = 0;
    while i < riders.len()
        invariant
            i <= riders.len(),
            out@ == riders@.take(i as int),
        decreases riders.len() - i,
    {
        out.push(riders[i].clone());
        assert(out@ =~= riders@.take(i + 1));
        i += 1;
    }
    assert(riders@.take(i as int) == riders@);
    out
}

/// Copies a running order.
pub fn clone_positions(positions: &Vec<RiderPosition>) -> (r: Vec<RiderPosition>)
    ensures
        r@ == positions@,
{
    let mut out: Vec<RiderPosition> = Vec::new();
    let mut i: usize = 0;
    while i < positions.len()
        invariant
            i <= positions.len(),
            out@ == positions@.take(i as int),
        decreases positions.len() - i,
    {
        out.push(positions[i].clone());
        assert(out@ =~= positions@.take(i + 1));
        i += 1;
    }
    assert(positions@.take(i as int) == positions@);
    out
}

/// Copies a result list.
pub fn clone_results(results: &Vec<FinishResult>) -> (r: Vec<FinishResult>)
    ensures
        r@ == results@,
{
    let mut out: Vec<FinishResult> = Vec::new();
    let mut i: usize = 0;
    while i < results.len()
        invariant
            i <= results.len(),
            out@ == results@.take(i as int),
        decreases results.len() - i,
    {
        out.push(results[i].clone());
        assert(out@ =~= results@.take(i + 1));
        i += 1;
    }
    assert(results@.take(i as int) == results@);
    out
}

/// Copies the split times of a rider.
pub fn clone_splits(splits: &Vec<SplitRecord>) -> (r: Vec<SplitRecord>)
    ensures
        r@ == splits@,
{
    let mut out: Vec<SplitRecord> = Vec::new();
    let mut i: usize = 0;
    while i < splits.len()
        invariant
            i <= splits.len(),
            out@ == splits@.take(i as int),
        decreases splits.len() - i,
    {
        out.push(splits[i].clone());
        assert(out@ =~= splits@.take(i + 1));
        i += 1;
    }
    assert(splits@.take(i as int) == splits@);
    out
}

/// Copies the loops of a track.
pub fn clone_loops(loops: &Vec<LoopConfig>) -> (r: Vec<LoopConfig>)
    ensures
        r@ == loops@,
{
    let mut out: Vec<LoopConfig> = Vec::new();
    let mut i: usize = 0;
    while i < loops.len()
        invariant
            i <= loops.len(),
            out@ == loops@.take(i as int),
        decreases loops.len() - i,
    {
        out.push(loops[i].clone());
        assert(out@ =~= loops@.take(i + 1));
        i += 1;
    }
    assert(loops@.take(i as int) == loops@);
    out
}

impl Clone for RiderState {
    fn clone(&self) -> (r: Self)
        ensures
            r@ == self@,
    {
        RiderState {
            rider_id: self.rider_id.clone(),
            first_name: self.first_name.clone(),
            last_name: self.last_name.clone(),
            plate_number: self.plate_number.clone(),
            transponder_id: self.transponder_id,
            lane: self.lane,
            splits: clone_splits(&self.splits),
            last_loop_position: self.last_loop_position,
            last_loop_name: clone_text(&self.last_loop_name),
            last_elapsed_us: self.last_elapsed_us,
            finish_elapsed_us: self.finish_elapsed_us,
            finish_position: self.finish_position,
            finished: self.finished,
            dnf: self.dnf,
        }
    }
}

impl Clone for TrackConfig {
    fn clone(&self) -> (r: Self)
        ensures
            r@ == self@,
    {
        TrackConfig {
            track_id: self.track_id.clone(),
            name: self.name.clone(),
            gate_beacon_id: self.gate_beacon_id,
            loops: clone_loops(&self.loops),
        }
    }
}

impl Clone for RaceEvent {
    fn clone(&self) -> (r: Self)
        ensures
            r@ == self@,
    {
        match self {
            RaceEvent::RaceStaged { moto_id, class_name, round_type, riders } => {
                RaceEvent::RaceStaged {
                    moto_id: moto_id.clone(),
                    class_name: class_name.clone(),
                    round_type: round_type.clone(),
                    riders: clone_staged_riders(riders),
                }
            },
            RaceEvent::GateDrop { moto_id, timestamp_us } => RaceEvent::GateDrop {
                moto_id: moto_id.clone(),
                timestamp_us: *timestamp_us,
            },
            RaceEvent::SplitTime {
                moto_id,
                rider_id,
                loop_name,
                is_finish,
                elapsed_us,
                position,
                gap_to_leader_us,
            } => RaceEvent::SplitTime {
                moto_id: moto_id.clone(),
                rider_id: rider_id.clone(),
                loop_name: loop_name.clone(),
                is_finish: *is_finish,
                elapsed_us: *elapsed_us,
                position: *position,
                gap_to_leader_us: *gap_to_leader_us,
            },
            RaceEvent::PositionsUpdate { moto_id, positions } => RaceEvent::PositionsUpdate {
                moto_id: moto_id.clone(),
                positions: clone_positions(positions),
            },
            RaceEvent::RiderFinished {
                moto_id,
                rider_id,
                finish_position,
                elapsed_us,
                gap_to_leader_us,
            } => RaceEvent::RiderFinished {
                moto_id: moto_id.clone(),
                rider_id: rider_id.clone(),
                finish_position: *finish_position,
                elapsed_us: *elapsed_us,
                gap_to_leader_us: *gap_to_leader_us,
            },
            RaceEvent::RaceFinished { moto_id, results } => RaceEvent::RaceFinished {
                moto_id: moto_id.clone(),
                results: clone_results(results),
            },
            RaceEvent::RaceReset => RaceEvent::RaceReset,
            RaceEvent::StateSnapshot {
                phase,
                moto_id,
                class_name,
                round_type,
                riders,
                positions,
                gate_drop_time_us,
                finished_count,
                total_riders,
            } => RaceEvent::StateSnapshot {
                phase: phase.clone(),
                moto_id: clone_text(moto_id),
                class_name: clone_text(class_name),
                round_type: clone_text(round_type),
                riders: clone_staged_riders(riders),
                positions: clone_positions(positions),
                gate_drop_time_us: *gate_drop_time_us,
                finished_count: *finished_count,
                total_riders: *total_riders,
            },
        }
    }
}

/// The state of a rider who has just been staged.
pub open spec fn fresh_rider(rider: StagedRider) -> RiderModel {
    RiderModel {
        rider_id: rider.rider_id,
        first_name: rider.first_name,
        last_name: rider.last_name,
        plate_number: rider.plate_number,
        transponder_id: rider.transponder_id,
        lane: rider.lane,
        splits: Seq::empty(),
        last_loop_position: None,
        last_loop_name: None,
        last_elapsed_us: None,
        finish_elapsed_us: None,
        finish_position: None,
        finished: false,
        dnf: false,
    }
}

/// The staged rider that a state was made from.
pub open spec fn staged_of(rider: RiderModel) -> StagedRider {
    StagedRider {
        rider_id: rider.rider_id,
        first_name: rider.first_name,
        last_name: rider.last_name,
        plate_number: rider.plate_number,
        transponder_id: rider.transponder_id,
        lane: rider.lane,
    }
}

/// A rider's entry in the running order, at a given place and with a given
/// gap.
pub open spec fn position_of(rider: RiderModel, position: u32, gap_to_leader_us: Option<u64>)
    -> RiderPosition {
    RiderPosition {
        rider_id: rider.rider_id,
        plate_number: rider.plate_number,
        first_name: rider.first_name,
        last_name: rider.last_name,
        lane: rider.lane,
        position,
        last_loop: rider.last_loop_name,
        elapsed_us: rider.last_elapsed_us,
        gap_to_leader_us,
        finished: rider.finished,
        dnf: rider.dnf,
    }
}

impl RiderState {
    /// The state of a rider who has yet to start: no splits, not finished.
    pub fn new(
        rider_id: String,
        first_name: String,
        last_name: String,
        plate_number: String,
        transponder_id: u32,
        lane: u32,
    ) -> (r: Self)
        ensures
            r@ == fresh_rider(
                StagedRider { rider_id, first_name, last_name, plate_number, transponder_id, lane },
            ),
    {
        RiderState {
            rider_id,
            first_name,
            last_name,
            plate_number,
            transponder_id,
            lane,
            splits: Vec::new(),
            last_loop_position: None,
            last_loop_name: None,
            last_elapsed_us: None,
            finish_elapsed_us: None,
            finish_position: None,
            finished: false,
            dnf: false,
        }
    }

    /// The rider's entry in the running order.
    pub fn to_position(&self, position: u32, gap_to_leader_us: Option<u64>) -> (r: RiderPosition)
        ensures
            r == position_of(self@, position, gap_to_leader_us),
    {
        RiderPosition {
            rider_id: self.rider_id.clone(),
            plate_number: self.plate_number.clone(),
            first_name: self.first_name.clone(),
            last_name: self.last_name.clone(),
            lane: self.lane,
            position,
            last_loop: clone_text(&self.last_loop_name),
            elapsed_us: self.last_elapsed_us,
            gap_to_leader_us,
            finished: self.finished,
            dnf: self.dnf,
        }
    }

    /// The rider as staged.
    pub fn to_staged(&self) -> (r: StagedRider)
        ensures
            r == staged_of(self@),
    {
        StagedRider {
            rider_id: self.rider_id.clone(),
            first_name: self.first_name.clone(),
            last_name: self.last_name.clone(),
            plate_number: self.plate_number.clone(),
            transponder_id: self.transponder_id,
            lane: self.lane,
        }
    }
}

} // verus!
