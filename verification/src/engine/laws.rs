//! What holds of every race: laws of the engine's state machine, proved over
//! the model.

use vstd::prelude::*;
use crate::engine::model::{
    all_done,
    crossing,
    crossing_discarded,
    crossing_events,
    force_finished,
    loop_index,
    mapped,
    not_started,
    passing_step,
    results,
    riders_after_crossing,
    staged,
    well_formed,
    EngineModel,
    RacePhase,
};
use crate::engine::race_event::{
    LoopConfig,
    RaceEventModel,
    StagedRider,
};
use crate::engine::state::{
    lemma_finished_count_bound,
    lemma_finished_count_same,
    lemma_finished_count_update,
    lemma_rider_index,
    lemma_staged_riders,
};
use crate::parser::messages::PassingMessage;

verus! {

/// An input of a race between staging and the next staging or reset.
pub enum RaceInput {
    /// A passing reported by a decoder.
    Passing(PassingMessage),
    /// The operator ends the race.
    ForceFinish,
}

/// What one input does: the state after it and the events it yields.
pub open spec fn input_step(m: EngineModel, input: RaceInput) -> (EngineModel, Seq<RaceEventModel>) {
    match input {
        RaceInput::Passing(p) => passing_step(m, p),
        RaceInput::ForceFinish => if m.phase is Racing {
            (
                force_finished(m),
                seq![
                    RaceEventModel::RaceFinished {
                        moto_id: m.phase->Racing_moto_id,
                        results: results(force_finished(m).riders),
                    },
                ],
            )
        } else {
            (m, Seq::empty())
        },
    }
}

/// What a run of inputs does: the state after the last and all events in
/// the order yielded.
pub open spec fn run(m: EngineModel, inputs: Seq<RaceInput>) -> (EngineModel, Seq<RaceEventModel>)
    decreases inputs.len(),
{
    if inputs.len() == 0 {
        (m, Seq::empty())
    } else {
        let before = run(m, inputs.drop_last());
        let last = input_step(before.0, inputs.last());
        (last.0, before.1 + last.1)
    }
}

/// The finish places that a run of events assigns, in order.
pub open spec fn finish_places(events: Seq<RaceEventModel>) -> Seq<u32>
    decreases events.len(),
{
    if events.len() == 0 {
        Seq::empty()
    } else {
        let before = finish_places(events.drop_last());
        match events.last() {
            RaceEventModel::RiderFinished { finish_position, .. } => before.push(finish_position),
            _ => before,
        }
    }
}

/// The number of `RaceFinished` events among a run of events.
pub open spec fn race_finished_count(events: Seq<RaceEventModel>) -> nat
    decreases events.len(),
{
    if events.len() == 0 {
        0
    } else {
        race_finished_count(events.drop_last()) + if events.last() is RaceFinished {
            1nat
        } else {
            0nat
        }
    }
}

/// Whether a sequence counts up by one from `start`.
pub open spec fn counts_up_from(s: Seq<u32>, start: nat) -> bool {
    forall|i: int| 0 <= i < s.len() ==> s[i] == start + i
}

/// Unfolds the two counts at the last event of a run.
proof fn lemma_counts_push(events: Seq<RaceEventModel>, e: RaceEventModel)
    ensures
        finish_places(events.push(e)) == match e {
            RaceEventModel::RiderFinished { finish_position, .. } => finish_places(events).push(
                finish_position,
            ),
            _ => finish_places(events),
        },
        race_finished_count(events.push(e)) == race_finished_count(events) + if e is RaceFinished {
            1nat
        } else {
            0nat
        },
{
    assert(events.push(e).drop_last() == events);
    assert(events.push(e).last() == e);
}

proof fn lemma_finish_places_concat(a: Seq<RaceEventModel>, b: Seq<RaceEventModel>)
    ensures
        finish_places(a + b) == finish_places(a) + finish_places(b),
    decreases b.len(),
{
    if b.len() == 0 {
        assert(a + b == a);
        assert(finish_places(a) + finish_places(b) == finish_places(a));
    } else {
        assert((a + b).drop_last() == a + b.drop_last());
        assert((a + b).last() == b.last());
        lemma_finish_places_concat(a, b.drop_last());
        match b.last() {
            RaceEventModel::RiderFinished { finish_position, .. } => {
                assert((finish_places(a) + finish_places(b.drop_last())).push(finish_position)
                    == finish_places(a) + finish_places(b.drop_last()).push(finish_position));
            },
            _ => {},
        }
    }
}

proof fn lemma_race_finished_count_concat(a: Seq<RaceEventModel>, b: Seq<RaceEventModel>)
    ensures
        race_finished_count(a + b) == race_finished_count(a) + race_finished_count(b),
    decreases b.len(),
{
    if b.len() == 0 {
        assert(a + b == a);
    } else {
        assert((a + b).drop_last() == a + b.drop_last());
        assert((a + b).last() == b.last());
        lemma_race_finished_count_concat(a, b.drop_last());
    }
}

/// A loop's index, where found, lies within the track.
pub proof fn lemma_loop_index(loops: Seq<LoopConfig>, decoder_id: Seq<char>)
    ensures
        loop_index(loops, decoder_id) matches Some(i) ==> 0 <= i < loops.len() && loops[i].decoder_id@
            == decoder_id,
    decreases loops.len(),
{
    if loops.len() > 0 && loops.last().decoder_id@ != decoder_id {
        lemma_loop_index(loops.drop_last(), decoder_id);
    }
}

/// A passing is mapped to a loop of the track and a rider of the moto.
pub proof fn lemma_mapped(m: EngineModel, p: PassingMessage)
    ensures
        mapped(m, p) matches Some((li, ri)) ==> m.track is Some && 0 <= li < m.track->0.loops.len()
            && 0 <= ri < m.riders.len() && m.riders[ri].transponder_id == p.transponder_id,
{
    if m.track is Some && p.decoder_id is Some {
        lemma_loop_index(m.track->0.loops, p.decoder_id->0@);
        lemma_rider_index(m.riders, p.transponder_id);
    }
}

/// The events of a crossing, with the facts the laws need: the crossing
/// assigns a finish place exactly when the loop is a finish loop, and the
/// race ends exactly when every rider is done.
proof fn lemma_crossing(m: EngineModel, li: int, ri: int, rtc_time_us: u64)
    requires
        well_formed(m),
        m.phase is Racing,
        m.track is Some,
        0 <= li < m.track->0.loops.len(),
        0 <= ri < m.riders.len(),
        !crossing_discarded(m.riders[ri], m.track->0.loops[li]),
    ensures
        well_formed(crossing(m, li, ri, rtc_time_us).0),
        crossing(m, li, ri, rtc_time_us).0.track == m.track,
        crossing(m, li, ri, rtc_time_us).0.phase is Racing || crossing(
            m,
            li,
            ri,
            rtc_time_us,
        ).0.phase is Finished,
        finish_places(crossing(m, li, ri, rtc_time_us).1) == if m.track->0.loops[li].is_finish {
            seq![m.next_finish_position as u32]
        } else {
            Seq::<u32>::empty()
        },
        crossing(m, li, ri, rtc_time_us).0.next_finish_position == m.next_finish_position
            + finish_places(crossing(m, li, ri, rtc_time_us).1).len(),
        m.next_finish_position <= u32::MAX,
        race_finished_count(crossing(m, li, ri, rtc_time_us).1) == if crossing(
            m,
            li,
            ri,
            rtc_time_us,
        ).0.phase is Finished {
            1nat
        } else {
            0nat
        },
{
    let lp = m.track->0.loops[li];
    let moto_id = m.phase->Racing_moto_id;
    let elapsed_us = crate::engine::model::minus_or_zero(rtc_time_us, m.phase->gate_drop_time_us);
    let place = m.next_finish_position as u32;
    let after = riders_after_crossing(m.riders, ri, lp, elapsed_us, place);
    let told = crossing_events(m.riders[ri], after, moto_id, lp, elapsed_us, place);
    let update = RaceEventModel::PositionsUpdate {
        moto_id,
        positions: crate::engine::model::running_order(after),
    };
    let events = told.push(update);
    let step = crossing(m, li, ri, rtc_time_us);
    lemma_finished_count_update(m.riders, ri, after[ri]);
    lemma_finished_count_bound(after);
    lemma_finished_count_bound(m.riders);
    assert forall|i: int, j: int| 0 <= i < j < after.len() implies after[i].transponder_id
        != after[j].transponder_id by {
        assert(after[i].transponder_id == m.riders[i].transponder_id);
        assert(after[j].transponder_id == m.riders[j].transponder_id);
    }
    assert forall|i: int| 0 <= i < after.len() implies !after[i].dnf by {
        assert(after[i].dnf == m.riders[i].dnf);
    }
    let none = Seq::<RaceEventModel>::empty();
    if lp.is_finish {
        assert(told == none.push(told[0]).push(told[1]));
        lemma_counts_push(none, told[0]);
        lemma_counts_push(none.push(told[0]), told[1]);
        assert(finish_places(told) == seq![place]);
    } else if !m.riders[ri].finished {
        assert(told == none.push(told[0]));
        lemma_counts_push(none, told[0]);
    }
    lemma_counts_push(told, update);
    if all_done(after) {
        let finish = RaceEventModel::RaceFinished { moto_id, results: results(after) };
        lemma_counts_push(events, finish);
    }
}

/// What a passing does, with the facts the laws need.
proof fn lemma_passing_step(m: EngineModel, p: PassingMessage)
    requires
        well_formed(m),
    ensures
        well_formed(passing_step(m, p).0),
        passing_step(m, p).0.track == m.track,
        m.next_finish_position <= u32::MAX,
        finish_places(passing_step(m, p).1).len() <= 1,
        counts_up_from(finish_places(passing_step(m, p).1), m.next_finish_position),
        passing_step(m, p).0.next_finish_position == m.next_finish_position + finish_places(
            passing_step(m, p).1,
        ).len(),
        race_finished_count(passing_step(m, p).1) == if !(m.phase is Finished) && passing_step(
            m,
            p,
        ).0.phase is Finished {
            1nat
        } else {
            0nat
        },
        m.phase is Idle ==> passing_step(m, p).0.phase is Idle,
        m.phase is Finished ==> passing_step(m, p).0 == m,
        m.phase is Staged ==> passing_step(m, p).0.phase is Staged || passing_step(
            m,
            p,
        ).0.phase is Racing,
        m.phase is Racing ==> passing_step(m, p).0.phase is Racing || passing_step(
            m,
            p,
        ).0.phase is Finished,
{
    lemma_finished_count_bound(m.riders);
    let step = passing_step(m, p);
    if m.track is Some {
        match m.phase {
            RacePhase::Staged { moto_id, .. } => {
                if crate::engine::model::gate_drop(p.transponder_id, m.track->0.gate_beacon_id) {
                    let none = Seq::<RaceEventModel>::empty();
                    assert(step.1 == none.push(step.1[0]));
                    lemma_counts_push(none, step.1[0]);
                    if m.riders.len() > 0 {
                        assert(not_started(m.riders[0]));
                    }
                }
            },
            RacePhase::Racing { .. } => {
                if !crate::engine::model::gate_drop(p.transponder_id, m.track->0.gate_beacon_id) {
                    lemma_mapped(m, p);
                    match mapped(m, p) {
                        Some((li, ri)) => {
                            if !crossing_discarded(m.riders[ri], m.track->0.loops[li]) {
                                lemma_crossing(m, li, ri, p.rtc_time_us);
                            }
                        },
                        None => {},
                    }
                }
            },
            _ => {},
        }
    }
}

/// What one input does, with the facts the laws need.
proof fn lemma_input_step(m: EngineModel, input: RaceInput)
    requires
        well_formed(m),
    ensures
        well_formed(input_step(m, input).0),
        input_step(m, input).0.track == m.track,
        counts_up_from(finish_places(input_step(m, input).1), m.next_finish_position),
        input_step(m, input).0.next_finish_position == m.next_finish_position + finish_places(
            input_step(m, input).1,
        ).len(),
        race_finished_count(input_step(m, input).1) == if !(m.phase is Finished) && input_step(
            m,
            input,
        ).0.phase is Finished {
            1nat
        } else {
            0nat
        },
        m.phase is Idle ==> input_step(m, input).0.phase is Idle,
        m.phase is Finished ==> input_step(m, input).0 == m,
        m.phase is Staged ==> input_step(m, input).0.phase is Staged || input_step(
            m,
            input,
        ).0.phase is Racing,
        m.phase is Racing ==> input_step(m, input).0.phase is Racing || input_step(
            m,
            input,
        ).0.phase is Finished,
{
    match input {
        RaceInput::Passing(p) => {
            lemma_passing_step(m, p);
        },
        RaceInput::ForceFinish => {
            if m.phase is Racing {
                let after = force_finished(m);
                let step = input_step(m, input);
                lemma_finished_count_same(m.riders, after.riders);
                assert forall|a: int, b: int| 0 <= a < b < after.riders.len() implies after.riders[a].transponder_id
                    != after.riders[b].transponder_id by {
                    assert(after.riders[a].transponder_id == m.riders[a].transponder_id);
                    assert(after.riders[b].transponder_id == m.riders[b].transponder_id);
                }
                let none = Seq::<RaceEventModel>::empty();
                assert(step.1 == none.push(step.1[0]));
                lemma_counts_push(none, step.1[0]);
            }
        },
    }
}

/// The invariant of the engine holds after every input of a run.
pub proof fn lemma_run_keeps_well_formed(m: EngineModel, inputs: Seq<RaceInput>)
    requires
        well_formed(m),
    ensures
        well_formed(run(m, inputs).0),
        run(m, inputs).0.track == m.track,
    decreases inputs.len(),
{
    if inputs.len() > 0 {
        lemma_run_keeps_well_formed(m, inputs.drop_last());
        lemma_input_step(run(m, inputs.drop_last()).0, inputs.last());
    }
}

/// Finish monotonicity. Over any run of passings and operator endings, the
/// finish places that the engine assigns count up by one from the place
/// that was free at the start, and the next free place moves on by their
/// number.
pub proof fn law_finish_places_count_up(m: EngineModel, inputs: Seq<RaceInput>)
    requires
        well_formed(m),
    ensures
        counts_up_from(finish_places(run(m, inputs).1), m.next_finish_position),
        run(m, inputs).0.next_finish_position == m.next_finish_position + finish_places(
            run(m, inputs).1,
        ).len(),
    decreases inputs.len(),
{
    if inputs.len() > 0 {
        let before = run(m, inputs.drop_last());
        let last = input_step(before.0, inputs.last());
        law_finish_places_count_up(m, inputs.drop_last());
        lemma_run_keeps_well_formed(m, inputs.drop_last());
        lemma_input_step(before.0, inputs.last());
        lemma_finish_places_concat(before.1, last.1);
    }
}

/// Finish monotonicity, from the start: in a moto that has just been staged,
/// the finish places assigned over any run are 1, 2, 3 and so on.
pub proof fn law_finish_places_start_at_one(
    m: EngineModel,
    moto_id: String,
    class_name: String,
    round_type: String,
    riders: Seq<StagedRider>,
    inputs: Seq<RaceInput>,
)
    requires
        riders.len() < u32::MAX,
    ensures
        well_formed(staged(m, moto_id, class_name, round_type, riders)),
        counts_up_from(
            finish_places(run(staged(m, moto_id, class_name, round_type, riders), inputs).1),
            1,
        ),
{
    lemma_staged_riders(riders);
    law_finish_places_count_up(staged(m, moto_id, class_name, round_type, riders), inputs);
}

/// Completion exclusivity. Over any run of passings and operator endings
/// that starts with a moto staged or racing, `RaceFinished` is emitted at
/// most once, and exactly once when the run ends in the phase Finished. A
/// run that starts idle or finished emits none.
pub proof fn law_race_finished_at_most_once(m: EngineModel, inputs: Seq<RaceInput>)
    requires
        well_formed(m),
    ensures
        race_finished_count(run(m, inputs).1) <= 1,
        m.phase is Staged || m.phase is Racing ==> (race_finished_count(run(m, inputs).1) == 1
            <==> run(m, inputs).0.phase is Finished),
        m.phase is Staged || m.phase is Racing ==> !(run(m, inputs).0.phase is Idle),
        m.phase is Idle || m.phase is Finished ==> race_finished_count(run(m, inputs).1) == 0
            && run(m, inputs).0.phase == m.phase,
    decreases inputs.len(),
{
    if inputs.len() > 0 {
        let before = run(m, inputs.drop_last());
        let last = input_step(before.0, inputs.last());
        law_race_finished_at_most_once(m, inputs.drop_last());
        lemma_run_keeps_well_formed(m, inputs.drop_last());
        lemma_input_step(before.0, inputs.last());
        lemma_race_finished_count_concat(before.1, last.1);
    }
}

/// Completion by the operator: ending a race that is running emits
/// `RaceFinished` once and leaves the phase Finished.
pub proof fn law_force_finish_ends_race(m: EngineModel)
    requires
        well_formed(m),
        m.phase is Racing,
    ensures
        race_finished_count(input_step(m, RaceInput::ForceFinish).1) == 1,
        input_step(m, RaceInput::ForceFinish).0.phase is Finished,
        all_done(input_step(m, RaceInput::ForceFinish).0.riders),
{
    lemma_input_step(m, RaceInput::ForceFinish);
}

/// Completion by the riders: a moto with riders, all of whom are done,
/// cannot be staged or racing. So once every rider of a moto has finished the
/// run has reached the phase Finished, and by
/// `law_race_finished_at_most_once` has emitted `RaceFinished` exactly once.
pub proof fn law_all_done_means_finished(m: EngineModel)
    requires
        well_formed(m),
        m.riders.len() > 0,
        all_done(m.riders),
    ensures
        m.phase is Finished,
{
    if m.phase is Staged {
        assert(not_started(m.riders[0]));
    }
}

/// Whether rider `ri` was last recorded at a loop of position `p` or
/// further along.
pub open spec fn reached(m: EngineModel, ri: int, p: u32) -> bool {
    0 <= ri < m.riders.len() && (m.riders[ri].last_loop_position matches Some(last) && last >= p)
}

/// Whether no finish loop of the track lies before position `p`.
pub open spec fn finish_not_before(m: EngineModel, p: u32) -> bool {
    m.track matches Some(track) ==> forall|i: int|
        0 <= i < track.loops.len() && track.loops[i].is_finish ==> track.loops[i].position >= p
}

proof fn lemma_reached_is_kept(m: EngineModel, input: RaceInput, ri: int, p: u32)
    requires
        well_formed(m),
        reached(m, ri, p),
        finish_not_before(m, p),
    ensures
        reached(input_step(m, input).0, ri, p),
        input_step(m, input).0.riders.len() == m.riders.len(),
{
    lemma_input_step(m, input);
    match input {
        RaceInput::Passing(q) => {
            lemma_mapped(m, q);
        },
        RaceInput::ForceFinish => {},
    }
}

proof fn lemma_reached_over_run(m: EngineModel, inputs: Seq<RaceInput>, ri: int, p: u32)
    requires
        well_formed(m),
        reached(m, ri, p),
        finish_not_before(m, p),
    ensures
        reached(run(m, inputs).0, ri, p),
        well_formed(run(m, inputs).0),
        run(m, inputs).0.track == m.track,
    decreases inputs.len(),
{
    lemma_run_keeps_well_formed(m, inputs);
    if inputs.len() > 0 {
        lemma_reached_over_run(m, inputs.drop_last(), ri, p);
        lemma_reached_is_kept(run(m, inputs.drop_last()).0, inputs.last(), ri, p);
    }
}

/// Anti-backtracking. Once a rider is recorded at a loop of position `p`,
/// then after any run of passings and operator endings a passing of that
/// rider at a loop of position below `p` changes nothing and yields no
/// event.
///
/// This holds on tracks where no finish loop lies before position `p`: the
/// first crossing of a finish loop is taken wherever the loop lies.
pub proof fn law_no_backtracking(
    m: EngineModel,
    inputs: Seq<RaceInput>,
    ri: int,
    p: u32,
    q: PassingMessage,
)
    requires
        well_formed(m),
        reached(m, ri, p),
        finish_not_before(m, p),
        mapped(run(m, inputs).0, q) matches Some((li, r)) && r == ri && run(
            m,
            inputs,
        ).0.track->0.loops[li].position < p,
    ensures
        passing_step(run(m, inputs).0, q) == (run(m, inputs).0, Seq::<RaceEventModel>::empty()),
{
    let m2 = run(m, inputs).0;
    lemma_reached_over_run(m, inputs, ri, p);
    lemma_mapped(m2, q);
    if m2.phase is Staged {
        assert(not_started(m2.riders[ri]));
    }
}

} // verus!
