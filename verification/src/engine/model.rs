//! The race engine as a mathematical state machine.
//!
//! The functions here say what each input does to the state of a race and
//! which events it yields. The engine's methods are proved to compute them.

use vstd::prelude::*;
use crate::engine::race_event::{
    fresh_rider,
    position_of,
    staged_of,
    FinishResult,
    LoopConfig,
    RaceEventModel,
    RiderModel,
    RiderPosition,
    SplitRecord,
    StagedRider,
    TrackModel,
};
use crate::parser::messages::PassingMessage;
use crate::protocol::fields::reserved_id;

verus! {

/// The phase of a race.
#[derive(Debug, PartialEq)]
pub enum RacePhase {
    /// No race; the operator has yet to stage a moto.
    Idle,
    /// A moto is staged and waits for a gate drop.
    Staged { moto_id: String, class_name: String, round_type: String },
    /// A gate drop was seen; the race is on.
    Racing { moto_id: String, class_name: String, round_type: String, gate_drop_time_us: u64 },
    /// Every rider finished, or the operator ended the race.
    Finished { moto_id: String, class_name: String, round_type: String },
}

impl Clone for RacePhase {
    fn clone(&self) -> (r: Self)
        ensures
            r == *self,
    {
        match self {
            RacePhase::Idle => RacePhase::Idle,
            RacePhase::Staged { moto_id, class_name, round_type } => RacePhase::Staged {
                moto_id: moto_id.clone(),
                class_name: class_name.clone(),
                round_type: round_type.clone(),
            },
            RacePhase::Racing { moto_id, class_name, round_type, gate_drop_time_us } => {
                RacePhase::Racing {
                    moto_id: moto_id.clone(),
                    class_name: class_name.clone(),
                    round_type: round_type.clone(),
                    gate_drop_time_us: *gate_drop_time_us,
                }
            },
            RacePhase::Finished { moto_id, class_name, round_type } => RacePhase::Finished {
                moto_id: moto_id.clone(),
                class_name: class_name.clone(),
                round_type: round_type.clone(),
            },
        }
    }
}

impl RacePhase {
    /// The name of the phase: "idle", "staged", "racing" or "finished".
    pub fn name(&self) -> (n: &'static str)
        ensures
            n@ == phase_name(*self),
    {
        match self {
            RacePhase::Idle => "idle",
            RacePhase::Staged { .. } => "staged",
            RacePhase::Racing { .. } => "racing",
            RacePhase::Finished { .. } => "finished",
        }
    }
}

/// The state of a race engine as a mathematical value.
pub struct EngineModel {
    pub phase: RacePhase,
    pub track: Option<TrackModel>,
    /// The riders of the moto, in the order they were staged.
    pub riders: Seq<RiderModel>,
    /// The place that the next rider to finish takes.
    pub next_finish_position: nat,
}

/// The name of a phase.
pub open spec fn phase_name(phase: RacePhase) -> Seq<char> {
    match phase {
        RacePhase::Idle => "idle"@,
        RacePhase::Staged { .. } => "staged"@,
        RacePhase::Racing { .. } => "racing"@,
        RacePhase::Finished { .. } => "finished"@,
    }
}

/// Whether a transponder id marks a gate drop on a track: it is the track's
/// gate beacon or one of the reserved ids.
pub open spec fn gate_drop(transponder_id: u32, gate_beacon_id: u32) -> bool {
    transponder_id == gate_beacon_id || reserved_id(transponder_id)
}

/// `a - b`, or 0 where `b` is the larger.
pub open spec fn minus_or_zero(a: u64, b: u64) -> u64 {
    if a >= b {
        (a - b) as u64
    } else {
        0
    }
}

/// Index of the rider who carries a transponder: the first such rider.
pub open spec fn rider_index(riders: Seq<RiderModel>, transponder_id: u32) -> Option<int>
    decreases riders.len(),
{
    if riders.len() == 0 {
        None
    } else if riders[0].transponder_id == transponder_id {
        Some(0)
    } else {
        match rider_index(riders.skip(1), transponder_id) {
            Some(i) => Some(i + 1),
            None => None,
        }
    }
}

/// Index of the loop that a decoder reports for: the last loop of the track
/// with that decoder id.
pub open spec fn loop_index(loops: Seq<LoopConfig>, decoder_id: Seq<char>) -> Option<int>
    decreases loops.len(),
{
    if loops.len() == 0 {
        None
    } else if loops.last().decoder_id@ == decoder_id {
        Some(loops.len() - 1)
    } else {
        loop_index(loops.drop_last(), decoder_id)
    }
}

/// Index of a rider's split at a loop: the first entry with that loop id.
pub open spec fn split_index(splits: Seq<SplitRecord>, loop_id: Seq<char>) -> Option<int>
    decreases splits.len(),
{
    if splits.len() == 0 {
        None
    } else if splits[0].loop_id@ == loop_id {
        Some(0)
    } else {
        match split_index(splits.skip(1), loop_id) {
            Some(i) => Some(i + 1),
            None => None,
        }
    }
}

/// A rider's time at a loop, if one is recorded.
pub open spec fn split_at(splits: Seq<SplitRecord>, loop_id: Seq<char>) -> Option<u64> {
    match split_index(splits, loop_id) {
        Some(i) => Some(splits[i].elapsed_us),
        None => None,
    }
}

/// The splits with a time recorded at a loop: an entry for the loop is
/// overwritten, else one is added at the end.
pub open spec fn with_split(splits: Seq<SplitRecord>, loop_id: String, elapsed_us: u64) -> Seq<
    SplitRecord,
> {
    match split_index(splits, loop_id@) {
        Some(i) => splits.update(i, SplitRecord { loop_id: splits[i].loop_id, elapsed_us }),
        None => splits.push(SplitRecord { loop_id, elapsed_us }),
    }
}

/// The time at a loop of the rider with a given id: that of the first rider
/// with the id, if a time is recorded.
pub open spec fn time_of_rider_at(
    riders: Seq<RiderModel>,
    loop_id: Seq<char>,
    rider_id: Seq<char>,
) -> Option<u64>
    decreases riders.len(),
{
    if riders.len() == 0 {
        None
    } else if riders[0].rider_id@ == rider_id {
        split_at(riders[0].splits, loop_id)
    } else {
        time_of_rider_at(riders.skip(1), loop_id, rider_id)
    }
}

/// The number of riders other than `rider_id` whose time at a loop is
/// strictly smaller than `time`.
pub open spec fn faster_count(
    riders: Seq<RiderModel>,
    loop_id: Seq<char>,
    rider_id: Seq<char>,
    time: u64,
) -> nat
    decreases riders.len(),
{
    if riders.len() == 0 {
        0
    } else {
        let r = riders.last();
        let one: nat = if r.rider_id@ != rider_id && (split_at(r.splits, loop_id) matches Some(t)
            && t < time) {
            1
        } else {
            0
        };
        faster_count(riders.drop_last(), loop_id, rider_id, time) + one
    }
}

/// A rider's place at a loop: one more than the number of riders with a
/// strictly smaller time there; 1 when the rider has no time there.
pub open spec fn position_at_loop(riders: Seq<RiderModel>, loop_id: Seq<char>, rider_id: Seq<char>)
    -> nat {
    match time_of_rider_at(riders, loop_id, rider_id) {
        Some(time) => faster_count(riders, loop_id, rider_id, time) + 1,
        None => 1,
    }
}

/// The smaller of an optional minimum and one more value.
pub open spec fn min_with(least: Option<u64>, value: Option<u64>) -> Option<u64> {
    match value {
        None => least,
        Some(v) => match least {
            None => Some(v),
            Some(m) => if v < m {
                Some(v)
            } else {
                Some(m)
            },
        },
    }
}

/// The smallest time recorded at a loop.
pub open spec fn leader_time(riders: Seq<RiderModel>, loop_id: Seq<char>) -> Option<u64>
    decreases riders.len(),
{
    if riders.len() == 0 {
        None
    } else {
        min_with(leader_time(riders.drop_last(), loop_id), split_at(riders.last().splits, loop_id))
    }
}

/// The finish time of a rider, if the rider has finished.
pub open spec fn finish_time(r: RiderModel) -> Option<u64> {
    if r.finished {
        r.finish_elapsed_us
    } else {
        None
    }
}

/// The smallest finish time among the riders who have finished.
pub open spec fn least_finish_time(riders: Seq<RiderModel>) -> Option<u64>
    decreases riders.len(),
{
    if riders.len() == 0 {
        None
    } else {
        min_with(least_finish_time(riders.drop_last()), finish_time(riders.last()))
    }
}

/// The finish time of the first finisher: of the first rider who holds
/// finish position 1.
pub open spec fn first_finisher_time(riders: Seq<RiderModel>) -> Option<u64>
    decreases riders.len(),
{
    if riders.len() == 0 {
        None
    } else if riders[0].finish_position == Some(1u32) {
        riders[0].finish_elapsed_us
    } else {
        first_finisher_time(riders.skip(1))
    }
}

/// The number of riders who have finished.
pub open spec fn finished_count(riders: Seq<RiderModel>) -> nat
    decreases riders.len(),
{
    if riders.len() == 0 {
        0
    } else {
        finished_count(riders.drop_last()) + if riders.last().finished {
            1nat
        } else {
            0nat
        }
    }
}

/// Whether every rider has finished or is marked as not finishing.
pub open spec fn all_done(riders: Seq<RiderModel>) -> bool {
    forall|i: int| 0 <= i < riders.len() ==> riders[i].finished || riders[i].dnf
}

/// The key by which the running order ranks a rider: riders who finished
/// come first, by finish position; then riders still racing, the further
/// loop first and at the same loop the smaller time first; then riders who
/// did not finish, by lane.
pub open spec fn rank_key(r: RiderModel) -> (int, int, int) {
    if r.finished {
        (
            0,
            match r.finish_position {
                Some(p) => p as int + 1,
                None => 0,
            },
            0,
        )
    } else if r.dnf {
        (2, r.lane as int, 0)
    } else {
        (
            1,
            -(match r.last_loop_position {
                Some(p) => p as int,
                None => 0,
            }),
            match r.last_elapsed_us {
                Some(t) => t as int,
                None => u64::MAX as int,
            },
        )
    }
}

/// Lexicographic order on keys.
pub open spec fn key_le(a: (int, int, int), b: (int, int, int)) -> bool {
    a.0 < b.0 || (a.0 == b.0 && (a.1 < b.1 || (a.1 == b.1 && a.2 <= b.2)))
}

/// A sorted sequence with one more rider: behind every rider whose key is
/// not larger.
pub open spec fn rider_inserted(sorted: Seq<RiderModel>, x: RiderModel) -> Seq<RiderModel>
    decreases sorted.len(),
{
    if sorted.len() == 0 {
        seq![x]
    } else if key_le(rank_key(sorted.last()), rank_key(x)) {
        sorted.push(x)
    } else {
        rider_inserted(sorted.drop_last(), x).push(sorted.last())
    }
}

/// The riders by rank; riders of equal key keep the order in which they
/// were staged.
pub open spec fn ranked(riders: Seq<RiderModel>) -> Seq<RiderModel>
    decreases riders.len(),
{
    if riders.len() == 0 {
        Seq::empty()
    } else {
        rider_inserted(ranked(riders.drop_last()), riders.last())
    }
}

/// The gap shown for a rider at place `place` of the running order: none
/// for the first place; for a rider with a finish time, the time behind the
/// smallest finish time; else the rider's last elapsed time.
pub open spec fn order_gap(r: RiderModel, place: int, leader: Option<u64>) -> Option<u64> {
    if place <= 1 {
        None
    } else if leader is Some && r.finish_elapsed_us is Some {
        Some(minus_or_zero(r.finish_elapsed_us->0, leader->0))
    } else {
        r.last_elapsed_us
    }
}

/// The running order: the riders by rank, numbered from 1.
pub open spec fn running_order(riders: Seq<RiderModel>) -> Seq<RiderPosition> {
    let order = ranked(riders);
    let leader = least_finish_time(riders);
    Seq::new(
        order.len(),
        |k: int| position_of(order[k], (k + 1) as u32, order_gap(order[k], k + 1, leader)),
    )
}

/// The result of one rider. The gap is the time behind the smallest finish
/// time; the rider at finish position 1 and riders without a finish time
/// have none.
pub open spec fn result_of(r: RiderModel, leader: Option<u64>) -> FinishResult {
    FinishResult {
        rider_id: r.rider_id,
        plate_number: r.plate_number,
        first_name: r.first_name,
        last_name: r.last_name,
        position: match r.finish_position {
            Some(p) => p,
            None => 0,
        },
        elapsed_us: r.finish_elapsed_us,
        gap_to_leader_us: if leader is Some && r.finish_elapsed_us is Some && r.finish_position
            != Some(1u32) {
            Some(minus_or_zero(r.finish_elapsed_us->0, leader->0))
        } else {
            None
        },
        dnf: r.dnf,
        dns: false,
    }
}

/// Order of results: riders who finished before those who did not, and
/// within each by position.
pub open spec fn result_le(a: FinishResult, b: FinishResult) -> bool {
    if a.dnf == b.dnf {
        a.position <= b.position
    } else {
        !a.dnf
    }
}

/// A sorted result list with one more result: behind every result that is
/// not larger.
pub open spec fn result_inserted(sorted: Seq<FinishResult>, x: FinishResult) -> Seq<FinishResult>
    decreases sorted.len(),
{
    if sorted.len() == 0 {
        seq![x]
    } else if result_le(sorted.last(), x) {
        sorted.push(x)
    } else {
        result_inserted(sorted.drop_last(), x).push(sorted.last())
    }
}

/// The results of the first `n` riders, in order; `leader` is the smallest
/// finish time of all riders.
pub open spec fn results_upto(riders: Seq<RiderModel>, n: int, leader: Option<u64>) -> Seq<
    FinishResult,
>
    decreases n,
{
    if n <= 0 {
        Seq::empty()
    } else {
        result_inserted(results_upto(riders, n - 1, leader), result_of(riders[n - 1], leader))
    }
}

/// The classification of a race: riders who finished by position, then the
/// others; results that compare equal keep the order of staging.
pub open spec fn results(riders: Seq<RiderModel>) -> Seq<FinishResult> {
    results_upto(riders, riders.len() as int, least_finish_time(riders))
}

/// The riders of a moto as the engine holds them: in the order given, where
/// a rider whose transponder was given before takes the earlier rider's
/// place.
pub open spec fn staged_riders(input: Seq<StagedRider>) -> Seq<RiderModel>
    decreases input.len(),
{
    if input.len() == 0 {
        Seq::empty()
    } else {
        let before = staged_riders(input.drop_last());
        let r = fresh_rider(input.last());
        match rider_index(before, r.transponder_id) {
            Some(i) => before.update(i, r),
            None => before.push(r),
        }
    }
}

/// Whether the engine takes a staging request: only when idle or finished.
pub open spec fn accepts_stage(phase: RacePhase) -> bool {
    phase is Idle || phase is Finished
}

/// The state after a staging request that was taken.
pub open spec fn staged(
    m: EngineModel,
    moto_id: String,
    class_name: String,
    round_type: String,
    riders: Seq<StagedRider>,
) -> EngineModel {
    EngineModel {
        phase: RacePhase::Staged { moto_id, class_name, round_type },
        track: m.track,
        riders: staged_riders(riders),
        next_finish_position: 1,
    }
}

/// The state after a reset.
pub open spec fn reset(m: EngineModel) -> EngineModel {
    EngineModel {
        phase: RacePhase::Idle,
        track: m.track,
        riders: Seq::empty(),
        next_finish_position: 1,
    }
}

/// A rider marked as not finishing, unless the rider has finished.
pub open spec fn given_up(r: RiderModel) -> RiderModel {
    if r.finished {
        r
    } else {
        RiderModel { dnf: true, ..r }
    }
}

/// The state after the operator ended a race that was running.
pub open spec fn force_finished(m: EngineModel) -> EngineModel
    recommends
        m.phase is Racing,
{
    EngineModel {
        phase: RacePhase::Finished {
            moto_id: m.phase->Racing_moto_id,
            class_name: m.phase->Racing_class_name,
            round_type: m.phase->Racing_round_type,
        },
        track: m.track,
        riders: m.riders.map_values(|r: RiderModel| given_up(r)),
        next_finish_position: m.next_finish_position,
    }
}

/// Whether a crossing of a loop by a rider is discarded: the rider was last
/// recorded at a loop further along and this is not a finish loop, or this
/// is a finish loop and the rider has finished before.
pub open spec fn crossing_discarded(r: RiderModel, lp: LoopConfig) -> bool {
    ||| (r.last_loop_position matches Some(last) && lp.position < last && !lp.is_finish)
    ||| (lp.is_finish && r.finished)
}

/// A rider with a crossing recorded.
pub open spec fn with_crossing(r: RiderModel, lp: LoopConfig, elapsed_us: u64) -> RiderModel {
    RiderModel {
        splits: with_split(r.splits, lp.loop_id, elapsed_us),
        last_loop_position: Some(lp.position),
        last_loop_name: Some(lp.name),
        last_elapsed_us: Some(elapsed_us),
        ..r
    }
}

/// A rider who has just finished at a given place.
pub open spec fn with_finish(r: RiderModel, elapsed_us: u64, place: u32) -> RiderModel {
    RiderModel {
        finished: true,
        finish_elapsed_us: Some(elapsed_us),
        finish_position: Some(place),
        ..r
    }
}

/// The loop and the rider that a passing is mapped to, as indices; `None`
/// unless the passing names a decoder of the track and a transponder of the
/// moto.
pub open spec fn mapped(m: EngineModel, p: PassingMessage) -> Option<(int, int)> {
    if m.track is None || p.decoder_id is None {
        None
    } else {
        match loop_index(m.track->0.loops, p.decoder_id->0@) {
            None => None,
            Some(li) => match rider_index(m.riders, p.transponder_id) {
                None => None,
                Some(ri) => Some((li, ri)),
            },
        }
    }
}

/// The riders after rider `ri` crossed loop `lp` at `elapsed_us`, given the
/// next free finish place.
pub open spec fn riders_after_crossing(
    riders: Seq<RiderModel>,
    ri: int,
    lp: LoopConfig,
    elapsed_us: u64,
    place: u32,
) -> Seq<RiderModel> {
    let recorded = with_crossing(riders[ri], lp, elapsed_us);
    riders.update(
        ri,
        if lp.is_finish {
            with_finish(recorded, elapsed_us, place)
        } else {
            recorded
        },
    )
}

/// The events that tell of the crossing itself, before the running order.
pub open spec fn crossing_events(
    before: RiderModel,
    after: Seq<RiderModel>,
    moto_id: String,
    lp: LoopConfig,
    elapsed_us: u64,
    place: u32,
) -> Seq<RaceEventModel> {
    if lp.is_finish {
        let gap = match first_finisher_time(after) {
            Some(lt) => Some(minus_or_zero(elapsed_us, lt)),
            None => None,
        };
        seq![
            RaceEventModel::SplitTime {
                moto_id,
                rider_id: before.rider_id,
                loop_name: lp.name,
                is_finish: true,
                elapsed_us,
                position: place,
                gap_to_leader_us: gap,
            },
            RaceEventModel::RiderFinished {
                moto_id,
                rider_id: before.rider_id,
                finish_position: place,
                elapsed_us,
                gap_to_leader_us: gap,
            },
        ]
    } else if !before.finished {
        seq![
            RaceEventModel::SplitTime {
                moto_id,
                rider_id: before.rider_id,
                loop_name: lp.name,
                is_finish: false,
                elapsed_us,
                position: position_at_loop(after, lp.loop_id@, before.rider_id@) as u32,
                gap_to_leader_us: match leader_time(after, lp.loop_id@) {
                    Some(lt) => Some(minus_or_zero(elapsed_us, lt)),
                    None => None,
                },
            },
        ]
    } else {
        Seq::empty()
    }
}

/// What a passing does to a race that is running, once it is mapped to loop
/// `li` and rider `ri` and is not discarded: the crossing is recorded; the
/// events are the split time, for a finish crossing the rider's finish, the
/// running order, and the end of the race when every rider is done.
pub open spec fn crossing(m: EngineModel, li: int, ri: int, rtc_time_us: u64) -> (
    EngineModel,
    Seq<RaceEventModel>,
)
    recommends
        m.phase is Racing,
        m.track is Some,
{
    let moto_id = m.phase->Racing_moto_id;
    let lp = m.track->0.loops[li];
    let elapsed_us = minus_or_zero(rtc_time_us, m.phase->gate_drop_time_us);
    let place = m.next_finish_position as u32;
    let after = riders_after_crossing(m.riders, ri, lp, elapsed_us, place);
    let events = crossing_events(m.riders[ri], after, moto_id, lp, elapsed_us, place).push(
        RaceEventModel::PositionsUpdate { moto_id, positions: running_order(after) },
    );
    let next: nat = if lp.is_finish {
        m.next_finish_position + 1
    } else {
        m.next_finish_position
    };
    if all_done(after) {
        (
            EngineModel {
                phase: RacePhase::Finished {
                    moto_id,
                    class_name: m.phase->Racing_class_name,
                    round_type: m.phase->Racing_round_type,
                },
                track: m.track,
                riders: after,
                next_finish_position: next,
            },
            events.push(RaceEventModel::RaceFinished { moto_id, results: results(after) }),
        )
    } else {
        (
            EngineModel { phase: m.phase, track: m.track, riders: after, next_finish_position: next },
            events,
        )
    }
}

/// What a passing does: the state after it and the events it yields.
///
/// Without a track, when idle and when finished, nothing. When staged, a
/// gate drop starts the race and anything else is ignored. When racing, a
/// gate drop is ignored, and so is a passing that is not mapped to a loop of
/// the track and a rider of the moto, and a crossing that is discarded; any
/// other crossing is recorded.
pub open spec fn passing_step(m: EngineModel, p: PassingMessage) -> (
    EngineModel,
    Seq<RaceEventModel>,
) {
    if m.track is None {
        (m, Seq::empty())
    } else {
        match m.phase {
            RacePhase::Idle => (m, Seq::empty()),
            RacePhase::Finished { .. } => (m, Seq::empty()),
            RacePhase::Staged { moto_id, class_name, round_type } => {
                if gate_drop(p.transponder_id, m.track->0.gate_beacon_id) {
                    (
                        EngineModel {
                            phase: RacePhase::Racing {
                                moto_id,
                                class_name,
                                round_type,
                                gate_drop_time_us: p.rtc_time_us,
                            },
                            track: m.track,
                            riders: m.riders,
                            next_finish_position: m.next_finish_position,
                        },
                        seq![RaceEventModel::GateDrop { moto_id, timestamp_us: p.rtc_time_us }],
                    )
                } else {
                    (m, Seq::empty())
                }
            },
            RacePhase::Racing { .. } => {
                if gate_drop(p.transponder_id, m.track->0.gate_beacon_id) {
                    (m, Seq::empty())
                } else {
                    match mapped(m, p) {
                        None => (m, Seq::empty()),
                        Some((li, ri)) => if crossing_discarded(
                            m.riders[ri],
                            m.track->0.loops[li],
                        ) {
                            (m, Seq::empty())
                        } else {
                            crossing(m, li, ri, p.rtc_time_us)
                        },
                    }
                }
            },
        }
    }
}

/// The snapshot of a state.
pub open spec fn snapshot(m: EngineModel) -> RaceEventModel {
    RaceEventModel::StateSnapshot {
        phase: phase_name(m.phase),
        moto_id: match m.phase {
            RacePhase::Idle => None,
            RacePhase::Staged { moto_id, .. } => Some(moto_id),
            RacePhase::Racing { moto_id, .. } => Some(moto_id),
            RacePhase::Finished { moto_id, .. } => Some(moto_id),
        },
        class_name: match m.phase {
            RacePhase::Idle => None,
            RacePhase::Staged { class_name, .. } => Some(class_name),
            RacePhase::Racing { class_name, .. } => Some(class_name),
            RacePhase::Finished { class_name, .. } => Some(class_name),
        },
        round_type: match m.phase {
            RacePhase::Idle => None,
            RacePhase::Staged { round_type, .. } => Some(round_type),
            RacePhase::Racing { round_type, .. } => Some(round_type),
            RacePhase::Finished { round_type, .. } => Some(round_type),
        },
        riders: m.riders.map_values(|r: RiderModel| staged_of(r)),
        positions: running_order(m.riders),
        gate_drop_time_us: match m.phase {
            RacePhase::Racing { gate_drop_time_us, .. } => Some(gate_drop_time_us),
            _ => None,
        },
        finished_count: finished_count(m.riders) as u32,
        total_riders: m.riders.len() as u32,
    }
}

/// Whether no two riders carry the same transponder.
pub open spec fn distinct_transponders(riders: Seq<RiderModel>) -> bool {
    forall|i: int, j: int|
        0 <= i < j < riders.len() ==> riders[i].transponder_id != riders[j].transponder_id
}

/// Whether a rider has yet to start: not recorded at any loop, not
/// finished, not given up.
pub open spec fn not_started(r: RiderModel) -> bool {
    !r.finished && !r.dnf && r.last_loop_position is None
}

/// The invariant of the engine.
///
/// No two riders carry the same transponder; places fit 32 bits; the next
/// finish place is one more than the number of riders who finished. When
/// idle there are no riders; when staged no rider has been recorded at a
/// loop, finished or given up; while racing no rider has given up and,
/// unless the moto is empty, some rider has yet to finish.
pub open spec fn well_formed(m: EngineModel) -> bool {
    &&& m.riders.len() < u32::MAX
    &&& distinct_transponders(m.riders)
    &&& m.next_finish_position == finished_count(m.riders) + 1
    &&& m.phase is Idle ==> m.riders.len() == 0
    &&& m.phase is Staged ==> forall|i: int| 0 <= i < m.riders.len() ==> not_started(m.riders[i])
    &&& m.phase is Racing ==> forall|i: int| 0 <= i < m.riders.len() ==> !m.riders[i].dnf
    &&& m.phase is Racing && m.riders.len() > 0 ==> !all_done(m.riders)
}

} // verus!
