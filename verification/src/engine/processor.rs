//! Lookups and rankings over the riders of a moto.

use vstd::prelude::*;
use crate::engine::model::{
    all_done,
    faster_count,
    finished_count,
    first_finisher_time,
    gate_drop,
    key_le,
    leader_time,
    least_finish_time,
    loop_index,
    min_with,
    minus_or_zero,
    position_at_loop,
    rank_key,
    rider_index,
    split_at,
    split_index,
    time_of_rider_at,
    with_split,
};
use crate::engine::race_event::{
    rider_models,
    LoopConfig,
    RiderState,
    SplitRecord,
    TrackConfig,
};
use crate::parser::messages::PassingMessage;
use crate::protocol::fields::is_reserved;

verus! {

/// Tells whether a passing is a gate drop on a track: its transponder is
/// the track's gate beacon or one of the reserved ids 9991, 9992, 9995.
pub fn is_gate_drop(passing: &PassingMessage, track: &TrackConfig) -> (b: bool)
    ensures
        b == gate_drop(passing.transponder_id, track.gate_beacon_id),
{
    passing.transponder_id == track.gate_beacon_id || is_reserved(passing.transponder_id)
}

/// `a - b`, or 0 where `b` is the larger.
pub fn saturating_elapsed(a: u64, b: u64) -> (d: u64)
    ensures
        d == minus_or_zero(a, b),
{
    if a >= b {
        a - b
    } else {
        0
    }
}

/// Finds the rider who carries a transponder.
pub fn find_rider(riders: &Vec<RiderState>, transponder_id: u32) -> (r: Option<usize>)
    ensures
        match r {
            Some(i) => rider_index(rider_models(riders@), transponder_id) == Some(i as int) && i
                < riders@.len() && riders@[i as int].transponder_id == transponder_id,
            None => rider_index(rider_models(riders@), transponder_id) is None,
        },
{
    let ghost all = rider_models(riders@);
    let mut i: usize = 0;
    proof {
        assert(all.skip(0) == all);
    }
    while i < riders.len()
        invariant
            i <= riders.len(),
            all == rider_models(riders@),
            rider_index(all, transponder_id) == match rider_index(
                all.skip(i as int),
                transponder_id,
            ) {
                Some(k) => Some(k + i),
                None => None,
            },
        decreases riders.len() - i,
    {
        proof {
            let rest = all.skip(i as int);
            assert(rest[0] == riders@[i as int]@);
            assert(rest.skip(1) == all.skip(i + 1));
        }
        if riders[i].transponder_id == transponder_id {
            return Some(i);
        }
        i += 1;
    }
    proof {
        assert(all.skip(i as int).len() == 0);
    }
    None
}

/// Finds the loop that a decoder reports for; of several loops with the
/// same decoder id the last one.
pub fn find_loop(loops: &Vec<LoopConfig>, decoder_id: &String) -> (r: Option<usize>)
    ensures
        match r {
            Some(i) => loop_index(loops@, decoder_id@) == Some(i as int) && i < loops@.len(),
            None => loop_index(loops@, decoder_id@) is None,
        },
{
    let mut i: usize = loops.len();
    proof {
        assert(loops@.take(i as int) == loops@);
    }
    while i > 0
        invariant
            i <= loops.len(),
            loop_index(loops@, decoder_id@) == loop_index(loops@.take(i as int), decoder_id@),
        decreases i,
    {
        proof {
            let front = loops@.take(i as int);
            assert(front.last() == loops@[i - 1]);
            assert(front.drop_last() == loops@.take(i - 1));
        }
        if loops[i - 1].decoder_id == *decoder_id {
            return Some(i - 1);
        }
        i -= 1;
    }
    None
}

/// Whether no two loops of a track are reported by the same decoder.
pub open spec fn distinct_decoders(loops: Seq<LoopConfig>) -> bool {
    forall|i: int, j: int| 0 <= i < j < loops.len() ==> loops[i].decoder_id@ != loops[j].decoder_id@
}

/// Tells whether no two loops of a track are reported by the same decoder,
/// as a track configuration should have it.
pub fn has_distinct_decoders(track: &TrackConfig) -> (b: bool)
    ensures
        b == distinct_decoders(track.loops@),
{
    let n = track.loops.len();
    let mut j: usize = 0;
    while j < n
        invariant
            j <= n,
            n == track.loops@.len(),
            forall|a: int, b: int|
                0 <= a < b < j ==> track.loops@[a].decoder_id@ != track.loops@[b].decoder_id@,
        decreases n - j,
    {
        let mut i: usize = 0;
        while i < j
            invariant
                i <= j < n,
                n == track.loops@.len(),
                forall|a: int| 0 <= a < i ==> track.loops@[a].decoder_id@ != track.loops@[j as int].decoder_id@,
            decreases j - i,
        {
            if track.loops[i].decoder_id == track.loops[j].decoder_id {
                return false;
            }
            i += 1;
        }
        j += 1;
    }
    true
}

/// On a track whose loops have distinct decoders, the loop found for a
/// decoder is the only loop with that decoder.
pub proof fn law_loop_is_unique(loops: Seq<LoopConfig>, decoder_id: Seq<char>, k: int)
    requires
        distinct_decoders(loops),
        0 <= k < loops.len(),
        loops[k].decoder_id@ == decoder_id,
    ensures
        loop_index(loops, decoder_id) == Some(k),
    decreases loops.len(),
{
    if k < loops.len() - 1 {
        assert(loops.last().decoder_id@ != decoder_id);
        let front = loops.drop_last();
        assert forall|i: int, j: int| 0 <= i < j < front.len() implies front[i].decoder_id@
            != front[j].decoder_id@ by {
            assert(front[i] == loops[i] && front[j] == loops[j]);
        }
        law_loop_is_unique(front, decoder_id, k);
    }
}

/// Finds a rider's split at a loop.
pub fn find_split(splits: &Vec<SplitRecord>, loop_id: &String) -> (r: Option<usize>)
    ensures
        match r {
            Some(i) => split_index(splits@, loop_id@) == Some(i as int) && i < splits@.len(),
            None => split_index(splits@, loop_id@) is None,
        },
{
    let mut i: usize = 0;
    proof {
        assert(splits@.skip(0) == splits@);
    }
    while i < splits.len()
        invariant
            i <= splits.len(),
            split_index(splits@, loop_id@) == match split_index(splits@.skip(i as int), loop_id@) {
                Some(k) => Some(k + i),
                None => None,
            },
        decreases splits.len() - i,
    {
        proof {
            let rest = splits@.skip(i as int);
            assert(rest[0] == splits@[i as int]);
            assert(rest.skip(1) == splits@.skip(i + 1));
        }
        if splits[i].loop_id == *loop_id {
            return Some(i);
        }
        i += 1;
    }
    proof {
        assert(splits@.skip(i as int).len() == 0);
    }
    None
}

/// Reads a rider's time at a loop.
pub fn split_time(splits: &Vec<SplitRecord>, loop_id: &String) -> (r: Option<u64>)
    ensures
        r == split_at(splits@, loop_id@),
{
    match find_split(splits, loop_id) {
        Some(i) => Some(splits[i].elapsed_us),
        None => None,
    }
}

/// Records a rider's time at a loop, over an earlier time at that loop if
/// there is one.
pub fn record_split(splits: &mut Vec<SplitRecord>, loop_id: &String, elapsed_us: u64)
    ensures
        final(splits)@ == with_split(old(splits)@, *loop_id, elapsed_us),
{
    match find_split(splits, loop_id) {
        Some(i) => {
            let kept = splits[i].loop_id.clone();
            splits.set(i, SplitRecord { loop_id: kept, elapsed_us });
        },
        None => {
            splits.push(SplitRecord { loop_id: loop_id.clone(), elapsed_us });
        },
    }
}

/// Takes the smaller of a minimum so far and one more value.
fn fold_min(least: Option<u64>, value: Option<u64>) -> (r: Option<u64>)
    ensures
        r == min_with(least, value),
{
    match value {
        None => least,
        Some(v) => match least {
            None => Some(v),
            Some(m) => if v < m {
                Some(v)
            } else {
                Some(m)
            },
        },
    }
}

/// Computes a rider's place at a loop: one more than the number of other
/// riders with a strictly smaller time there. A rider without a time at the
/// loop, or an id that no rider has, gives 1.
pub fn calculate_position_at_loop(
    riders: &Vec<RiderState>,
    loop_config: &LoopConfig,
    current_rider_id: &String,
) -> (position: u32)
    requires
        riders@.len() < u32::MAX,
    ensures
        position == position_at_loop(
            rider_models(riders@),
            loop_config.loop_id@,
            current_rider_id@,
        ),
        1 <= position <= riders@.len() + 1,
{
    let ghost all = rider_models(riders@);
    let ghost loop_id = loop_config.loop_id@;
    let ghost rider_id = current_rider_id@;
    let mut current_time: Option<u64> = None;
    let mut found = false;
    let mut i: usize = 0;
    proof {
        assert(all.skip(0) == all);
    }
    while i < riders.len() && !found
        invariant
            i <= riders.len(),
            all == rider_models(riders@),
            loop_id == loop_config.loop_id@,
            rider_id == current_rider_id@,
            !found ==> time_of_rider_at(all, loop_id, rider_id) == time_of_rider_at(
                all.skip(i as int),
                loop_id,
                rider_id,
            ),
            !found ==> current_time is None,
            found ==> current_time == time_of_rider_at(all, loop_id, rider_id),
        decreases riders.len() - i,
    {
        proof {
            let rest = all.skip(i as int);
            assert(rest[0] == riders@[i as int]@);
            assert(rest.skip(1) == all.skip(i + 1));
        }
        if riders[i].rider_id == *current_rider_id {
            current_time = split_time(&riders[i].splits, &loop_config.loop_id);
            found = true;
        }
        i += 1;
    }
    proof {
        if !found {
            assert(all.skip(i as int).len() == 0);
        }
    }
    let time = match current_time {
        Some(t) => t,
        None => {
            return 1;
        },
    };
    let mut faster: u32 = 0;
    let mut k: usize = 0;
    proof {
        assert(all.take(0).len() == 0);
    }
    while k < riders.len()
        invariant
            k <= riders.len(),
            riders@.len() < u32::MAX,
            all == rider_models(riders@),
            loop_id == loop_config.loop_id@,
            rider_id == current_rider_id@,
            faster == faster_count(all.take(k as int), loop_id, rider_id, time),
            faster <= k,
        decreases riders.len() - k,
    {
        proof {
            let next = all.take(k + 1);
            assert(next.drop_last() == all.take(k as int));
            assert(next.last() == riders@[k as int]@);
        }
        if riders[k].rider_id != *current_rider_id {
            match split_time(&riders[k].splits, &loop_config.loop_id) {
                Some(t) => {
                    if t < time {
                        faster += 1;
                    }
                },
                None => {},
            }
        }
        k += 1;
    }
    proof {
        assert(all.take(k as int) == all);
    }
    faster + 1
}

/// Finds the smallest time recorded at a loop.
pub fn leader_time_at_loop(riders: &Vec<RiderState>, loop_config: &LoopConfig) -> (r: Option<u64>)
    ensures
        r == leader_time(rider_models(riders@), loop_config.loop_id@),
{
    let ghost all = rider_models(riders@);
    let mut least: Option<u64> = None;
    let mut i: usize = 0;
    proof {
        assert(all.take(0).len() == 0);
    }
    while i < riders.len()
        invariant
            i <= riders.len(),
            all == rider_models(riders@),
            least == leader_time(all.take(i as int), loop_config.loop_id@),
        decreases riders.len() - i,
    {
        proof {
            let next = all.take(i + 1);
            assert(next.drop_last() == all.take(i as int));
            assert(next.last() == riders@[i as int]@);
        }
        least = fold_min(least, split_time(&riders[i].splits, &loop_config.loop_id));
        i += 1;
    }
    proof {
        assert(all.take(i as int) == all);
    }
    least
}

/// Finds the smallest finish time among the riders who have finished.
pub fn leader_finish_time(riders: &Vec<RiderState>) -> (r: Option<u64>)
    ensures
        r == least_finish_time(rider_models(riders@)),
{
    let ghost all = rider_models(riders@);
    let mut least: Option<u64> = None;
    let mut i: usize = 0;
    proof {
        assert(all.take(0).len() == 0);
    }
    while i < riders.len()
        invariant
            i <= riders.len(),
            all == rider_models(riders@),
            least == least_finish_time(all.take(i as int)),
        decreases riders.len() - i,
    {
        proof {
            let next = all.take(i + 1);
            assert(next.drop_last() == all.take(i as int));
            assert(next.last() == riders@[i as int]@);
        }
        let time = if riders[i].finished {
            riders[i].finish_elapsed_us
        } else {
            None
        };
        least = fold_min(least, time);
        i += 1;
    }
    proof {
        assert(all.take(i as int) == all);
    }
    least
}

/// Finds the finish time of the rider at finish position 1.
pub fn first_finish_time(riders: &Vec<RiderState>) -> (r: Option<u64>)
    ensures
        r == first_finisher_time(rider_models(riders@)),
{
    let ghost all = rider_models(riders@);
    let mut i: usize = 0;
    proof {
        assert(all.skip(0) == all);
    }
    while i < riders.len()
        invariant
            i <= riders.len(),
            all == rider_models(riders@),
            first_finisher_time(all) == first_finisher_time(all.skip(i as int)),
        decreases riders.len() - i,
    {
        proof {
            let rest = all.skip(i as int);
            assert(rest[0] == riders@[i as int]@);
            assert(rest.skip(1) == all.skip(i + 1));
        }
        match riders[i].finish_position {
            Some(p) => {
                if p == 1 {
                    return riders[i].finish_elapsed_us;
                }
            },
            None => {},
        }
        i += 1;
    }
    proof {
        assert(all.skip(i as int).len() == 0);
    }
    None
}

/// Counts the riders who have finished.
pub fn count_finished(riders: &Vec<RiderState>) -> (n: usize)
    ensures
        n == finished_count(rider_models(riders@)),
        n <= riders@.len(),
{
    let ghost all = rider_models(riders@);
    let mut n: usize = 0;
    let mut i: usize = 0;
    proof {
        assert(all.take(0).len() == 0);
    }
    while i < riders.len()
        invariant
            i <= riders.len(),
            all == rider_models(riders@),
            n == finished_count(all.take(i as int)),
            n <= i,
        decreases riders.len() - i,
    {
        proof {
            let next = all.take(i + 1);
            assert(next.drop_last() == all.take(i as int));
            assert(next.last() == riders@[i as int]@);
        }
        if riders[i].finished {
            n += 1;
        }
        i += 1;
    }
    proof {
        assert(all.take(i as int) == all);
    }
    n
}

/// Tells whether every rider has finished or is marked as not finishing.
pub fn all_riders_done(riders: &Vec<RiderState>) -> (b: bool)
    ensures
        b == all_done(rider_models(riders@)),
{
    let ghost all = rider_models(riders@);
    let mut i: usize = 0;
    while i < riders.len()
        invariant
            i <= riders.len(),
            all == rider_models(riders@),
            forall|k: int| 0 <= k < i ==> all[k].finished || all[k].dnf,
        decreases riders.len() - i,
    {
        if !(riders[i].finished || riders[i].dnf) {
            assert(all[i as int] == riders@[i as int]@);
            return false;
        }
        assert(all[i as int] == riders@[i as int]@);
        i += 1;
    }
    true
}

/// Compares two riders by rank.
pub fn ranks_before_or_with(a: &RiderState, b: &RiderState) -> (le: bool)
    ensures
        le == key_le(rank_key(a@), rank_key(b@)),
{
    let ka = rank_of(a);
    let kb = rank_of(b);
    ka.0 < kb.0 || (ka.0 == kb.0 && (ka.1 < kb.1 || (ka.1 == kb.1 && ka.2 <= kb.2)))
}

/// The rank key of a rider in unsigned numbers, ordered as `rank_key` is.
fn rank_of(r: &RiderState) -> (k: (u8, u64, u64))
    ensures
        k.0 as int == rank_key(r@).0,
        r.finished ==> k.1 as int == rank_key(r@).1 && k.2 as int == rank_key(r@).2,
        !r.finished && r.dnf ==> k.1 as int == rank_key(r@).1 && k.2 as int == rank_key(r@).2,
        !r.finished && !r.dnf ==> k.1 as int == u32::MAX + rank_key(r@).1 && k.2 as int
            == rank_key(r@).2,
{
    if r.finished {
        let place: u64 = match r.finish_position {
            Some(p) => p as u64 + 1,
            None => 0,
        };
        (0, place, 0)
    } else if r.dnf {
        (2, r.lane as u64, 0)
    } else {
        let reached: u32 = match r.last_loop_position {
            Some(p) => p,
            None => 0,
        };
        let time: u64 = match r.last_elapsed_us {
            Some(t) => t,
            None => u64::MAX,
        };
        (1, (u32::MAX - reached) as u64, time)
    }
}

} // verus!
