//! The race engine: one per track, fed with passings and operator intents.
//!
//! The engine takes every input in the order given and hands back the race
//! events for the caller to publish. It reads no clock: elapsed times come
//! from the decoder's timestamps alone.

use vstd::prelude::*;
use crate::engine::model::{
    accepts_stage,
    crossing,
    crossing_discarded,
    crossing_events,
    distinct_transponders,
    finished_count,
    force_finished,
    given_up,
    mapped,
    not_started,
    passing_step,
    reset,
    rider_index,
    riders_after_crossing,
    snapshot,
    staged,
    staged_riders,
    well_formed,
    EngineModel,
    RacePhase,
};
use crate::engine::order::{build_results, calculate_positions};
use crate::engine::processor::{
    all_riders_done,
    calculate_position_at_loop,
    count_finished,
    find_loop,
    find_rider,
    first_finish_time,
    is_gate_drop,
    leader_time_at_loop,
    record_split,
    saturating_elapsed,
};
use crate::engine::race_event::{
    clone_splits,
    event_models,
    fresh_rider,
    rider_models,
    staged_of,
    RaceEvent,
    RaceEventModel,
    RiderModel,
    RiderState,
    StagedRider,
    TrackConfig,
    TrackModel,
};
use crate::parser::messages::{clone_text, PassingMessage};
use vstd::string::StringExecFns;

verus! {

/// The race engine of one track.
pub struct RaceEngine {
    phase: RacePhase,
    track_config: Option<TrackConfig>,
    /// The riders of the moto in the order staged, no transponder twice.
    riders: Vec<RiderState>,
    next_finish_position: u32,
}

/// The state of an engine that has just been made: idle, without a track
/// and without riders.
pub open spec fn initial_model() -> EngineModel {
    EngineModel {
        phase: RacePhase::Idle,
        track: None,
        riders: Seq::empty(),
        next_finish_position: 1,
    }
}

/// A state with another track configuration.
pub open spec fn with_track(m: EngineModel, track: TrackModel) -> EngineModel {
    EngineModel {
        phase: m.phase,
        track: Some(track),
        riders: m.riders,
        next_finish_position: m.next_finish_position,
    }
}

/// A rider's index, where found, is that of a rider with the transponder,
/// and no earlier rider has it; where not found, no rider has it.
pub proof fn lemma_rider_index(riders: Seq<RiderModel>, transponder_id: u32)
    ensures
        match rider_index(riders, transponder_id) {
            Some(i) => 0 <= i < riders.len() && riders[i].transponder_id == transponder_id,
            None => forall|j: int|
                0 <= j < riders.len() ==> riders[j].transponder_id != transponder_id,
        },
    decreases riders.len(),
{
    if riders.len() > 0 && riders[0].transponder_id != transponder_id {
        lemma_rider_index(riders.skip(1), transponder_id);
        let rest = riders.skip(1);
        if rider_index(rest, transponder_id) is None {
            assert forall|j: int| 0 <= j < riders.len() implies riders[j].transponder_id
                != transponder_id by {
                if j > 0 {
                    assert(rest[j - 1] == riders[j]);
                }
            }
        }
    }
}

/// The count of finished riders lies between 0 and the number of riders.
pub proof fn lemma_finished_count_bound(riders: Seq<RiderModel>)
    ensures
        finished_count(riders) <= riders.len(),
    decreases riders.len(),
{
    if riders.len() > 0 {
        lemma_finished_count_bound(riders.drop_last());
    }
}

/// Where no rider has finished, the count is 0.
pub proof fn lemma_finished_count_zero(riders: Seq<RiderModel>)
    requires
        forall|i: int| 0 <= i < riders.len() ==> !riders[i].finished,
    ensures
        finished_count(riders) == 0,
    decreases riders.len(),
{
    if riders.len() > 0 {
        lemma_finished_count_zero(riders.drop_last());
    }
}

/// The count of finished riders depends on the `finished` marks alone.
pub proof fn lemma_finished_count_same(a: Seq<RiderModel>, b: Seq<RiderModel>)
    requires
        a.len() == b.len(),
        forall|i: int| 0 <= i < a.len() ==> a[i].finished == b[i].finished,
    ensures
        finished_count(a) == finished_count(b),
    decreases a.len(),
{
    if a.len() > 0 {
        lemma_finished_count_same(a.drop_last(), b.drop_last());
    }
}

/// Replacing one rider changes the count by that rider's mark.
pub proof fn lemma_finished_count_update(riders: Seq<RiderModel>, i: int, r: RiderModel)
    requires
        0 <= i < riders.len(),
    ensures
        finished_count(riders.update(i, r)) + (if riders[i].finished {
            1int
        } else {
            0int
        }) == finished_count(riders) + (if r.finished {
            1int
        } else {
            0int
        }),
    decreases riders.len(),
{
    let after = riders.update(i, r);
    if i == riders.len() - 1 {
        assert(after.drop_last() == riders.drop_last());
    } else {
        assert(after.drop_last() == riders.drop_last().update(i, r));
        assert(after.last() == riders.last());
        lemma_finished_count_update(riders.drop_last(), i, r);
    }
}

/// Staging yields riders who have not started, no transponder twice, and no
/// more riders than were given.
pub proof fn lemma_staged_riders(input: Seq<StagedRider>)
    ensures
        staged_riders(input).len() <= input.len(),
        distinct_transponders(staged_riders(input)),
        forall|i: int|
            0 <= i < staged_riders(input).len() ==> not_started(staged_riders(input)[i]),
        finished_count(staged_riders(input)) == 0,
    decreases input.len(),
{
    if input.len() > 0 {
        let before = staged_riders(input.drop_last());
        let r = fresh_rider(input.last());
        lemma_staged_riders(input.drop_last());
        lemma_rider_index(before, r.transponder_id);
    }
    lemma_finished_count_zero(staged_riders(input));
}

impl RaceEngine {
    /// The state of the engine as a mathematical value.
    pub closed spec fn view(&self) -> EngineModel {
        EngineModel {
            phase: self.phase,
            track: match self.track_config {
                Some(t) => Some(t@),
                None => None,
            },
            riders: rider_models(self.riders@),
            next_finish_position: self.next_finish_position as nat,
        }
    }

    /// An engine that is idle, without a track and without riders.
    pub fn new() -> (engine: Self)
        ensures
            engine@ == initial_model(),
            well_formed(engine@),
    {
        let engine = RaceEngine {
            phase: RacePhase::Idle,
            track_config: None,
            riders: Vec::new(),
            next_finish_position: 1,
        };
        proof {
            assert(rider_models(engine.riders@) =~= Seq::<RiderModel>::empty());
        }
        engine
    }

    /// The current phase.
    pub fn phase(&self) -> (phase: &RacePhase)
        ensures
            *phase == self@.phase,
    {
        &self.phase
    }

    /// Sets the track configuration. Phase and riders stay as they are.
    pub fn set_track(&mut self, config: TrackConfig)
        ensures
            final(self)@ == with_track(old(self)@, config@),
            well_formed(old(self)@) ==> well_formed(final(self)@),
    {
        self.track_config = Some(config);
    }

    /// Stages a moto. Taken only when the engine is idle or
    /// finished: the riders of the last moto are dropped, the finish places
    /// start at 1 again, and the event `RaceStaged` with the riders as
    /// given is handed back. In any other phase nothing changes and `None`
    /// is returned.
    pub fn stage_moto(
        &mut self,
        moto_id: String,
        class_name: String,
        round_type: String,
        riders: Vec<StagedRider>,
    ) -> (event: Option<RaceEvent>)
        requires
            well_formed(old(self)@),
            riders@.len() < u32::MAX,
        ensures
            well_formed(final(self)@),
            accepts_stage(old(self)@.phase) ==> final(self)@ == staged(
                old(self)@,
                moto_id,
                class_name,
                round_type,
                riders@,
            ) && (event matches Some(e) && e@ == RaceEventModel::RaceStaged {
                moto_id,
                class_name,
                round_type,
                riders: riders@,
            }),
            !accepts_stage(old(self)@.phase) ==> final(self)@ == old(self)@ && event is None,
    {
        let accepted = match &self.phase {
            RacePhase::Idle => true,
            RacePhase::Finished { .. } => true,
            _ => false,
        };
        if !accepted {
            return None;
        }
        let mut staged_list: Vec<RiderState> = Vec::new();
        let mut k: usize = 0;
        proof {
            assert(riders@.take(0).len() == 0);
            assert(rider_models(staged_list@) =~= staged_riders(riders@.take(0)));
        }
        while k < riders.len()
            invariant
                k <= riders.len(),
                rider_models(staged_list@) == staged_riders(riders@.take(k as int)),
            decreases riders.len() - k,
        {
            let rider = &riders[k];
            let state = RiderState::new(
                rider.rider_id.clone(),
                rider.first_name.clone(),
                rider.last_name.clone(),
                rider.plate_number.clone(),
                rider.transponder_id,
                rider.lane,
            );
            let ghost before = rider_models(staged_list@);
            proof {
                let next = riders@.take(k + 1);
                assert(next.drop_last() == riders@.take(k as int));
                assert(next.last() == riders@[k as int]);
                assert(state@ == fresh_rider(riders@[k as int]));
            }
            match find_rider(&staged_list, rider.transponder_id) {
                Some(i) => {
                    staged_list.set(i, state);
                    proof {
                        assert(rider_models(staged_list@) =~= before.update(i as int, state@));
                    }
                },
                None => {
                    staged_list.push(state);
                    proof {
                        assert(rider_models(staged_list@) =~= before.push(state@));
                    }
                },
            }
            k += 1;
        }
        proof {
            assert(riders@.take(k as int) == riders@);
            lemma_staged_riders(riders@);
        }
        let event = RaceEvent::RaceStaged {
            moto_id: moto_id.clone(),
            class_name: class_name.clone(),
            round_type: round_type.clone(),
            riders: riders,
        };
        self.riders = staged_list;
        self.next_finish_position = 1;
        self.phase = RacePhase::Staged { moto_id, class_name, round_type };
        Some(event)
    }

    /// Takes in one passing and hands back the events it yields, in the
    /// order to publish them.
    ///
    /// When staged, a gate drop starts the race. When racing, a rider's
    /// crossing of a loop of the track is recorded unless it is discarded: a
    /// crossing of a loop that lies before the one the rider was last
    /// recorded at, the finish loop excepted, and a finish crossing of a
    /// rider who has finished before. Every other passing is ignored.
    pub fn process_passing(&mut self, passing: &PassingMessage) -> (events: Vec<RaceEvent>)
        requires
            well_formed(old(self)@),
        ensures
            well_formed(final(self)@),
            final(self)@ == passing_step(old(self)@, *passing).0,
            event_models(events@) == passing_step(old(self)@, *passing).1,
            events@.len() == passing_step(old(self)@, *passing).1.len(),
            forall|i: int|
                0 <= i < events@.len() ==> (#[trigger] events@[i])@ == passing_step(
                    old(self)@,
                    *passing,
                ).1[i],
    {
        let events = self.take_passing(passing);
        proof {
            let step = passing_step(old(self)@, *passing);
            assert(event_models(events@).len() == events@.len());
            assert forall|i: int| 0 <= i < events@.len() implies (#[trigger] events@[i])@
                == step.1[i] by {
                assert(event_models(events@)[i] == events@[i]@);
            }
        }
        events
    }

    /// Takes in one passing; the work of `process_passing`.
    fn take_passing(&mut self, passing: &PassingMessage) -> (events: Vec<RaceEvent>)
        requires
            well_formed(old(self)@),
        ensures
            well_formed(final(self)@),
            final(self)@ == passing_step(old(self)@, *passing).0,
            event_models(events@) == passing_step(old(self)@, *passing).1,
    {
        let mut events: Vec<RaceEvent> = Vec::new();
        proof {
            assert(event_models(events@) =~= Seq::<RaceEventModel>::empty());
        }
        let gate = match &self.track_config {
            Some(track) => is_gate_drop(passing, track),
            None => {
                return events;
            },
        };
        let phase = self.phase.clone();
        match phase {
            RacePhase::Idle => events,
            RacePhase::Finished { .. } => events,
            RacePhase::Staged { moto_id, class_name, round_type } => {
                if gate {
                    let event = RaceEvent::GateDrop {
                        moto_id: moto_id.clone(),
                        timestamp_us: passing.rtc_time_us,
                    };
                    self.phase = RacePhase::Racing {
                        moto_id,
                        class_name,
                        round_type,
                        gate_drop_time_us: passing.rtc_time_us,
                    };
                    events.push(event);
                    proof {
                        assert(event_models(events@) =~= seq![event@]);
                        let m = self@;
                        if m.riders.len() > 0 {
                            assert(not_started(m.riders[0]));
                        }
                    }
                }
                events
            },
            RacePhase::Racing { moto_id, class_name, round_type, gate_drop_time_us } => {
                if gate {
                    return events;
                }
                let found_loop = match (&self.track_config, &passing.decoder_id) {
                    (Some(track), Some(decoder_id)) => find_loop(&track.loops, decoder_id),
                    _ => None,
                };
                let li = match found_loop {
                    Some(li) => li,
                    None => {
                        return events;
                    },
                };
                let ri = match find_rider(&self.riders, passing.transponder_id) {
                    Some(ri) => ri,
                    None => {
                        return events;
                    },
                };
                self.cross(moto_id, class_name, round_type, gate_drop_time_us, li, ri, passing)
            },
        }
    }

    /// Records the crossing of loop `li` by rider `ri`, unless it is
    /// discarded.
    fn cross(
        &mut self,
        moto_id: String,
        class_name: String,
        round_type: String,
        gate_drop_time_us: u64,
        li: usize,
        ri: usize,
        passing: &PassingMessage,
    ) -> (events: Vec<RaceEvent>)
        requires
            well_formed(old(self)@),
            old(self)@.phase == (RacePhase::Racing {
                moto_id,
                class_name,
                round_type,
                gate_drop_time_us,
            }),
            old(self)@.track is Some,
            mapped(old(self)@, *passing) == Some((li as int, ri as int)),
            li < old(self)@.track->0.loops.len(),
            ri < old(self)@.riders.len(),
        ensures
            well_formed(final(self)@),
            crossing_discarded(old(self)@.riders[ri as int], old(self)@.track->0.loops[li as int])
                ==> final(self)@ == old(self)@ && event_models(events@) == Seq::<
                RaceEventModel,
            >::empty(),
            !crossing_discarded(old(self)@.riders[ri as int], old(self)@.track->0.loops[li as int])
                ==> final(self)@ == crossing(old(self)@, li as int, ri as int, passing.rtc_time_us).0
                && event_models(events@) == crossing(
                old(self)@,
                li as int,
                ri as int,
                passing.rtc_time_us,
            ).1,
    {
        let ghost m = self@;
        let mut events: Vec<RaceEvent> = Vec::new();
        proof {
            assert(event_models(events@) =~= Seq::<RaceEventModel>::empty());
        }
        let lp = match &self.track_config {
            Some(track) => track.loops[li].clone(),
            None => {
                return events;
            },
        };
        let rider = &self.riders[ri];
        proof {
            assert(m.riders[ri as int] == rider@);
        }
        let dominated = match rider.last_loop_position {
            Some(last) => lp.position < last,
            None => false,
        };
        if (dominated && !lp.is_finish) || (lp.is_finish && rider.finished) {
            return events;
        }
        let elapsed_us = saturating_elapsed(passing.rtc_time_us, gate_drop_time_us);
        let place = self.next_finish_position;
        let was_finished = rider.finished;
        let rider_id = rider.rider_id.clone();
        let mut splits = clone_splits(&rider.splits);
        record_split(&mut splits, &lp.loop_id, elapsed_us);
        let after = RiderState {
            rider_id: rider.rider_id.clone(),
            first_name: rider.first_name.clone(),
            last_name: rider.last_name.clone(),
            plate_number: rider.plate_number.clone(),
            transponder_id: rider.transponder_id,
            lane: rider.lane,
            splits,
            last_loop_position: Some(lp.position),
            last_loop_name: Some(lp.name.clone()),
            last_elapsed_us: Some(elapsed_us),
            finish_elapsed_us: if lp.is_finish {
                Some(elapsed_us)
            } else {
                rider.finish_elapsed_us
            },
            finish_position: if lp.is_finish {
                Some(place)
            } else {
                rider.finish_position
            },
            finished: lp.is_finish || rider.finished,
            dnf: rider.dnf,
        };
        let ghost riders_after = riders_after_crossing(m.riders, ri as int, lp, elapsed_us, place);
        proof {
            assert(after@ == riders_after[ri as int]);
            lemma_finished_count_update(m.riders, ri as int, after@);
            lemma_finished_count_bound(riders_after);
        }
        self.riders.set(ri, after);
        proof {
            assert(rider_models(self.riders@) =~= riders_after);
        }
        if lp.is_finish {
            self.next_finish_position = place + 1;
            let gap = match first_finish_time(&self.riders) {
                Some(lt) => Some(saturating_elapsed(elapsed_us, lt)),
                None => None,
            };
            events.push(
                RaceEvent::SplitTime {
                    moto_id: moto_id.clone(),
                    rider_id: rider_id.clone(),
                    loop_name: lp.name.clone(),
                    is_finish: true,
                    elapsed_us,
                    position: place,
                    gap_to_leader_us: gap,
                },
            );
            events.push(
                RaceEvent::RiderFinished {
                    moto_id: moto_id.clone(),
                    rider_id: rider_id.clone(),
                    finish_position: place,
                    elapsed_us,
                    gap_to_leader_us: gap,
                },
            );
        } else if !was_finished {
            let position = calculate_position_at_loop(&self.riders, &lp, &rider_id);
            let gap = match leader_time_at_loop(&self.riders, &lp) {
                Some(lt) => Some(saturating_elapsed(elapsed_us, lt)),
                None => None,
            };
            events.push(
                RaceEvent::SplitTime {
                    moto_id: moto_id.clone(),
                    rider_id: rider_id.clone(),
                    loop_name: lp.name.clone(),
                    is_finish: false,
                    elapsed_us,
                    position,
                    gap_to_leader_us: gap,
                },
            );
        }
        proof {
            assert(event_models(events@) =~= crossing_events(
                m.riders[ri as int],
                riders_after,
                moto_id,
                lp,
                elapsed_us,
                place,
            ));
        }
        let ghost told = event_models(events@);
        let positions = calculate_positions(&self.riders);
        let update = RaceEvent::PositionsUpdate { moto_id: moto_id.clone(), positions };
        events.push(update);
        proof {
            assert(event_models(events@) =~= told.push(update@));
        }
        let ghost with_order = event_models(events@);
        if all_riders_done(&self.riders) {
            let results = build_results(&self.riders);
            let finish = RaceEvent::RaceFinished { moto_id: moto_id.clone(), results };
            self.phase = RacePhase::Finished { moto_id, class_name, round_type };
            events.push(finish);
            proof {
                assert(event_models(events@) =~= with_order.push(finish@));
            }
        }
        proof {
            let step = crossing(m, li as int, ri as int, passing.rtc_time_us);
            assert(m.track->0.loops[li as int] == lp);
            assert forall|i: int, j: int| 0 <= i < j < riders_after.len() implies riders_after[i].transponder_id
                != riders_after[j].transponder_id by {
                assert(riders_after[i].transponder_id == m.riders[i].transponder_id);
                assert(riders_after[j].transponder_id == m.riders[j].transponder_id);
            }
            assert forall|i: int| 0 <= i < riders_after.len() implies !riders_after[i].dnf by {
                assert(riders_after[i].dnf == m.riders[i].dnf);
            }
            assert(self@.riders == step.0.riders);
            assert(self@ == step.0);
        }
        events
    }

    /// Ends a race that is running: every rider who has not finished is
    /// marked as not finishing, and `RaceFinished` with the classification
    /// is handed back. In any other phase nothing changes and `None` is
    /// returned.
    pub fn force_finish(&mut self) -> (event: Option<RaceEvent>)
        requires
            well_formed(old(self)@),
        ensures
            well_formed(final(self)@),
            old(self)@.phase is Racing ==> final(self)@ == force_finished(old(self)@) && (
            event matches Some(e) && e@ == RaceEventModel::RaceFinished {
                moto_id: old(self)@.phase->Racing_moto_id,
                results: crate::engine::model::results(force_finished(old(self)@).riders),
            }),
            !(old(self)@.phase is Racing) ==> final(self)@ == old(self)@ && event is None,
    {
        let phase = self.phase.clone();
        match phase {
            RacePhase::Racing { moto_id, class_name, round_type, .. } => {
                let ghost before = rider_models(self.riders@);
                let ghost target = before.map_values(|r: RiderModel| given_up(r));
                let mut i: usize = 0;
                while i < self.riders.len()
                    invariant
                        i <= self.riders@.len(),
                        self.riders@.len() == before.len(),
                        target == before.map_values(|r: RiderModel| given_up(r)),
                        forall|k: int| 0 <= k < i ==> self.riders@[k]@ == target[k],
                        forall|k: int| i <= k < before.len() ==> self.riders@[k]@ == before[k],
                        self.phase == old(self).phase,
                        self.track_config == old(self).track_config,
                        self.next_finish_position == old(self).next_finish_position,
                    decreases self.riders@.len() - i,
                {
                    if !self.riders[i].finished {
                        let rider = &self.riders[i];
                        let marked = RiderState {
                            rider_id: rider.rider_id.clone(),
                            first_name: rider.first_name.clone(),
                            last_name: rider.last_name.clone(),
                            plate_number: rider.plate_number.clone(),
                            transponder_id: rider.transponder_id,
                            lane: rider.lane,
                            splits: clone_splits(&rider.splits),
                            last_loop_position: rider.last_loop_position,
                            last_loop_name: clone_text(&rider.last_loop_name),
                            last_elapsed_us: rider.last_elapsed_us,
                            finish_elapsed_us: rider.finish_elapsed_us,
                            finish_position: rider.finish_position,
                            finished: rider.finished,
                            dnf: true,
                        };
                        self.riders.set(i, marked);
                    }
                    i += 1;
                }
                proof {
                    assert(rider_models(self.riders@) =~= target);
                    lemma_finished_count_same(before, target);
                    assert forall|a: int, b: int| 0 <= a < b < target.len() implies target[a].transponder_id
                        != target[b].transponder_id by {
                        assert(target[a].transponder_id == before[a].transponder_id);
                        assert(target[b].transponder_id == before[b].transponder_id);
                    }
                }
                let results = build_results(&self.riders);
                self.phase = RacePhase::Finished { moto_id: moto_id.clone(), class_name, round_type };
                Some(RaceEvent::RaceFinished { moto_id, results })
            },
            _ => None,
        }
    }

    /// Goes back to idle from any phase: the riders are dropped, the track
    /// stays, and `RaceReset` is handed back.
    pub fn reset(&mut self) -> (event: RaceEvent)
        ensures
            final(self)@ == reset(old(self)@),
            well_formed(final(self)@),
            event@ == RaceEventModel::RaceReset,
    {
        self.phase = RacePhase::Idle;
        self.riders = Vec::new();
        self.next_finish_position = 1;
        proof {
            assert(rider_models(self.riders@) =~= Seq::<RiderModel>::empty());
        }
        RaceEvent::RaceReset
    }

    /// Describes the current state for a client that joins.
    pub fn state_snapshot(&self) -> (event: RaceEvent)
        requires
            well_formed(self@),
        ensures
            event@ == snapshot(self@),
    {
        let (moto_id, class_name, round_type, gate_drop_time_us) = match &self.phase {
            RacePhase::Idle => (None, None, None, None),
            RacePhase::Staged { moto_id, class_name, round_type } => (
                Some(moto_id.clone()),
                Some(class_name.clone()),
                Some(round_type.clone()),
                None,
            ),
            RacePhase::Racing { moto_id, class_name, round_type, gate_drop_time_us } => (
                Some(moto_id.clone()),
                Some(class_name.clone()),
                Some(round_type.clone()),
                Some(*gate_drop_time_us),
            ),
            RacePhase::Finished { moto_id, class_name, round_type } => (
                Some(moto_id.clone()),
                Some(class_name.clone()),
                Some(round_type.clone()),
                None,
            ),
        };
        let ghost all = rider_models(self.riders@);
        let mut riders: Vec<StagedRider> = Vec::new();
        let mut i: usize = 0;
        while i < self.riders.len()
            invariant
                i <= self.riders@.len(),
                all == rider_models(self.riders@),
                riders@.len() == i,
                forall|k: int| 0 <= k < i ==> riders@[k] == staged_of(all[k]),
            decreases self.riders@.len() - i,
        {
            riders.push(self.riders[i].to_staged());
            proof {
                assert(all[i as int] == self.riders@[i as int]@);
            }
            i += 1;
        }
        proof {
            assert(riders@ =~= all.map_values(|r: RiderModel| staged_of(r)));
        }
        let finished = count_finished(&self.riders);
        let event = RaceEvent::StateSnapshot {
            phase: String::from_str(self.phase.name()),
            moto_id,
            class_name,
            round_type,
            riders,
            positions: calculate_positions(&self.riders),
            gate_drop_time_us,
            finished_count: finished as u32,
            total_riders: self.riders.len() as u32,
        };
        event
    }
}

} // verus!
