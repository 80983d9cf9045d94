//! The running order and the classification of a moto.

use vstd::prelude::*;

use vstd::seq_lib::to_multiset_build;
use crate::engine::model::{
    key_le,
    least_finish_time,
    order_gap,
    rank_key,
    ranked,
    result_inserted,
    result_le,
    result_of,
    results,
    results_upto,
    rider_inserted,
    running_order,
};
use crate::engine::processor::{leader_finish_time, ranks_before_or_with, saturating_elapsed};
use crate::engine::race_event::{
    position_of,
    rider_models,
    FinishResult,
    RiderModel,
    RiderPosition,
    RiderState,
};

verus! {

/// The riders that a list of indices picks.
pub open spec fn picked(order: Seq<usize>, riders: Seq<RiderModel>) -> Seq<RiderModel> {
    order.map_values(|i: usize| riders[i as int])
}

/// Inserting into a sorted sequence puts the rider at the place in front of
/// which every key is not larger and behind which every key is larger.
pub proof fn lemma_rider_inserted_at(sorted: Seq<RiderModel>, x: RiderModel, j: int)
    requires
        0 <= j <= sorted.len(),
        forall|k: int| j <= k < sorted.len() ==> !key_le(rank_key(sorted[k]), rank_key(x)),
        j > 0 ==> key_le(rank_key(sorted[j - 1]), rank_key(x)),
    ensures
        rider_inserted(sorted, x) == sorted.take(j).push(x) + sorted.skip(j),
    decreases sorted.len() - j,
{
    if sorted.len() == 0 {
        assert(sorted.take(j).push(x) + sorted.skip(j) =~= seq![x]);
    } else if j == sorted.len() {
        assert(sorted.take(j).push(x) + sorted.skip(j) =~= sorted.push(x));
    } else {
        let front = sorted.drop_last();
        lemma_rider_inserted_at(front, x, j);
        assert(front.take(j) == sorted.take(j));
        assert((front.take(j).push(x) + front.skip(j)).push(sorted.last()) =~= sorted.take(j).push(
            x,
        ) + sorted.skip(j));
    }
}

/// The same for results.
pub proof fn lemma_result_inserted_at(sorted: Seq<FinishResult>, x: FinishResult, j: int)
    requires
        0 <= j <= sorted.len(),
        forall|k: int| j <= k < sorted.len() ==> !result_le(sorted[k], x),
        j > 0 ==> result_le(sorted[j - 1], x),
    ensures
        result_inserted(sorted, x) == sorted.take(j).push(x) + sorted.skip(j),
    decreases sorted.len() - j,
{
    if sorted.len() == 0 {
        assert(sorted.take(j).push(x) + sorted.skip(j) =~= seq![x]);
    } else if j == sorted.len() {
        assert(sorted.take(j).push(x) + sorted.skip(j) =~= sorted.push(x));
    } else {
        let front = sorted.drop_last();
        lemma_result_inserted_at(front, x, j);
        assert(front.take(j) == sorted.take(j));
        assert((front.take(j).push(x) + front.skip(j)).push(sorted.last()) =~= sorted.take(j).push(
            x,
        ) + sorted.skip(j));
    }
}

/// Ranking keeps the number of riders.
pub proof fn lemma_ranked_len(riders: Seq<RiderModel>)
    ensures
        ranked(riders).len() == riders.len(),
    decreases riders.len(),
{
    if riders.len() > 0 {
        lemma_ranked_len(riders.drop_last());
        lemma_rider_inserted_len(ranked(riders.drop_last()), riders.last());
    }
}

/// Inserting adds one rider.
pub proof fn lemma_rider_inserted_len(sorted: Seq<RiderModel>, x: RiderModel)
    ensures
        rider_inserted(sorted, x).len() == sorted.len() + 1,
    decreases sorted.len(),
{
    if sorted.len() > 0 && !key_le(rank_key(sorted.last()), rank_key(x)) {
        lemma_rider_inserted_len(sorted.drop_last(), x);
    }
}

/// Sorts the riders by rank; riders of equal rank keep their order. The
/// result lists indices into `riders`.
pub fn rank_riders(riders: &Vec<RiderState>) -> (order: Vec<usize>)
    ensures
        order@.len() == riders@.len(),
        forall|k: int| 0 <= k < order@.len() ==> order@[k] < riders@.len(),
        picked(order@, rider_models(riders@)) == ranked(rider_models(riders@)),
{
    let ghost all = rider_models(riders@);
    let mut order: Vec<usize> = Vec::new();
    let mut i: usize = 0;
    proof {
        assert(all.take(0).len() == 0);
        assert(picked(order@, all) =~= ranked(all.take(0)));
    }
    while i < riders.len()
        invariant
            i <= riders.len(),
            all == rider_models(riders@),
            order@.len() == i,
            forall|k: int| 0 <= k < order@.len() ==> order@[k] < riders@.len(),
            picked(order@, all) == ranked(all.take(i as int)),
        decreases riders.len() - i,
    {
        let ghost sorted = picked(order@, all);
        let ghost x = all[i as int];
        let mut j: usize = order.len();
        while j > 0 && !ranks_before_or_with(&riders[order[j - 1]], &riders[i])
            invariant
                j <= order@.len(),
                i < riders@.len(),
                all == rider_models(riders@),
                sorted == picked(order@, all),
                x == all[i as int],
                forall|k: int| 0 <= k < order@.len() ==> order@[k] < riders@.len(),
                forall|k: int| j <= k < sorted.len() ==> !key_le(rank_key(sorted[k]), rank_key(x)),
            decreases j,
        {
            proof {
                assert(sorted[j - 1] == all[order@[j - 1] as int]);
                assert(all[order@[j - 1] as int] == riders@[order@[j - 1] as int]@);
            }
            j -= 1;
        }
        proof {
            if j > 0 {
                assert(sorted[j - 1] == all[order@[j - 1] as int]);
                assert(all[order@[j - 1] as int] == riders@[order@[j - 1] as int]@);
            }
            assert(x == riders@[i as int]@);
            lemma_rider_inserted_at(sorted, x, j as int);
            let next = all.take(i + 1);
            assert(next.drop_last() == all.take(i as int));
            assert(next.last() == x);
        }
        order.insert(j, i);
        proof {
            assert(picked(order@, all) =~= sorted.take(j as int).push(x) + sorted.skip(j as int));
        }
        i += 1;
    }
    proof {
        assert(all.take(i as int) == all);
    }
    order
}

/// Computes the running order: the riders by rank, numbered from 1, each
/// with the gap to show.
pub fn calculate_positions(riders: &Vec<RiderState>) -> (positions: Vec<RiderPosition>)
    requires
        riders@.len() < u32::MAX,
    ensures
        positions@ == running_order(rider_models(riders@)),
        positions@.len() == riders@.len(),
{
    let ghost all = rider_models(riders@);
    let order = rank_riders(riders);
    let leader = leader_finish_time(riders);
    let ghost sorted = ranked(all);
    let mut positions: Vec<RiderPosition> = Vec::new();
    let mut place: u32 = 1;
    let mut k: usize = 0;
    while k < order.len()
        invariant
            k <= order@.len(),
            order@.len() == riders@.len(),
            riders@.len() < u32::MAX,
            place == k + 1,
            all == rider_models(riders@),
            sorted == ranked(all),
            picked(order@, all) == sorted,
            leader == least_finish_time(all),
            forall|n: int| 0 <= n < order@.len() ==> order@[n] < riders@.len(),
            positions@.len() == k,
            forall|n: int|
                0 <= n < k ==> positions@[n] == position_of(
                    sorted[n],
                    (n + 1) as u32,
                    order_gap(sorted[n], n + 1, leader),
                ),
        decreases order@.len() - k,
    {
        let rider = &riders[order[k]];
        proof {
            assert(sorted[k as int] == all[order@[k as int] as int]);
            assert(all[order@[k as int] as int] == rider@);
        }
        let gap: Option<u64> = if place <= 1 {
            None
        } else {
            match (leader, rider.finish_elapsed_us) {
                (Some(lt), Some(ft)) => Some(saturating_elapsed(ft, lt)),
                _ => rider.last_elapsed_us,
            }
        };
        positions.push(rider.to_position(place, gap));
        place += 1;
        k += 1;
    }
    proof {
        assert(sorted.len() == order@.len()) by {
            assert(picked(order@, all).len() == order@.len());
        }
        assert(positions@ =~= running_order(all));
    }
    positions
}

/// Compares two results: riders who finished before those who did not, and
/// within each by position.
fn result_before_or_with(a: &FinishResult, b: &FinishResult) -> (le: bool)
    ensures
        le == result_le(*a, *b),
{
    if a.dnf == b.dnf {
        a.position <= b.position
    } else {
        !a.dnf
    }
}

/// The result of one rider.
fn result_for(r: &RiderState, leader: Option<u64>) -> (res: FinishResult)
    ensures
        res == result_of(r@, leader),
{
    let at_front = match r.finish_position {
        Some(p) => p == 1,
        None => false,
    };
    let gap: Option<u64> = match (leader, r.finish_elapsed_us) {
        (Some(lt), Some(ft)) => if at_front {
            None
        } else {
            Some(saturating_elapsed(ft, lt))
        },
        _ => None,
    };
    FinishResult {
        rider_id: r.rider_id.clone(),
        plate_number: r.plate_number.clone(),
        first_name: r.first_name.clone(),
        last_name: r.last_name.clone(),
        position: match r.finish_position {
            Some(p) => p,
            None => 0,
        },
        elapsed_us: r.finish_elapsed_us,
        gap_to_leader_us: gap,
        dnf: r.dnf,
        dns: false,
    }
}

/// Builds the classification: riders who finished by position, then those
/// who did not; results that compare equal keep the order of the riders.
pub fn build_results(riders: &Vec<RiderState>) -> (out: Vec<FinishResult>)
    ensures
        out@ == results(rider_models(riders@)),
{
    let ghost all = rider_models(riders@);
    let leader = leader_finish_time(riders);
    let mut out: Vec<FinishResult> = Vec::new();
    let mut i: usize = 0;
    proof {
        assert(out@ =~= results_upto(all, 0, leader));
    }
    while i < riders.len()
        invariant
            i <= riders.len(),
            all == rider_models(riders@),
            leader == least_finish_time(all),
            out@ == results_upto(all, i as int, leader),
        decreases riders.len() - i,
    {
        let x = result_for(&riders[i], leader);
        let ghost sorted = out@;
        proof {
            assert(all[i as int] == riders@[i as int]@);
        }
        let mut j: usize = out.len();
        while j > 0 && !result_before_or_with(&out[j - 1], &x)
            invariant
                j <= out@.len(),
                sorted == out@,
                forall|k: int| j <= k < sorted.len() ==> !result_le(sorted[k], x),
            decreases j,
        {
            j -= 1;
        }
        proof {
            lemma_result_inserted_at(sorted, x, j as int);
        }
        out.insert(j, x);
        proof {
            assert(out@ =~= sorted.take(j as int).push(x) + sorted.skip(j as int));
        }
        i += 1;
    }
    out
}

/// Whether a sequence of riders never falls in rank from front to back.
pub open spec fn sorted_by_rank(s: Seq<RiderModel>) -> bool {
    forall|i: int, j: int| 0 <= i < j < s.len() ==> key_le(rank_key(s[i]), rank_key(s[j]))
}

/// Whether a result list never falls in order from front to back.
pub open spec fn sorted_results(s: Seq<FinishResult>) -> bool {
    forall|i: int, j: int| 0 <= i < j < s.len() ==> result_le(s[i], s[j])
}

/// The place at which a rider goes into a sorted sequence: behind the last
/// rider whose key is not larger.
pub open spec fn rider_insert_point(sorted: Seq<RiderModel>, x: RiderModel) -> int
    decreases sorted.len(),
{
    if sorted.len() == 0 {
        0
    } else if key_le(rank_key(sorted.last()), rank_key(x)) {
        sorted.len() as int
    } else {
        rider_insert_point(sorted.drop_last(), x)
    }
}

/// The place at which a result goes into a sorted list.
pub open spec fn result_insert_point(sorted: Seq<FinishResult>, x: FinishResult) -> int
    decreases sorted.len(),
{
    if sorted.len() == 0 {
        0
    } else if result_le(sorted.last(), x) {
        sorted.len() as int
    } else {
        result_insert_point(sorted.drop_last(), x)
    }
}

proof fn lemma_rider_insert_point(sorted: Seq<RiderModel>, x: RiderModel)
    ensures
        0 <= rider_insert_point(sorted, x) <= sorted.len(),
        forall|k: int|
            rider_insert_point(sorted, x) <= k < sorted.len() ==> !key_le(
                rank_key(sorted[k]),
                rank_key(x),
            ),
        rider_insert_point(sorted, x) > 0 ==> key_le(
            rank_key(sorted[rider_insert_point(sorted, x) - 1]),
            rank_key(x),
        ),
    decreases sorted.len(),
{
    if sorted.len() > 0 && !key_le(rank_key(sorted.last()), rank_key(x)) {
        let front = sorted.drop_last();
        lemma_rider_insert_point(front, x);
        assert forall|k: int| rider_insert_point(sorted, x) <= k < sorted.len() implies !key_le(
            rank_key(sorted[k]),
            rank_key(x),
        ) by {
            if k < front.len() {
                assert(sorted[k] == front[k]);
            }
        }
        if rider_insert_point(sorted, x) > 0 {
            assert(sorted[rider_insert_point(sorted, x) - 1] == front[rider_insert_point(front, x)
                - 1]);
        }
    }
}

proof fn lemma_result_insert_point(sorted: Seq<FinishResult>, x: FinishResult)
    ensures
        0 <= result_insert_point(sorted, x) <= sorted.len(),
        forall|k: int|
            result_insert_point(sorted, x) <= k < sorted.len() ==> !result_le(sorted[k], x),
        result_insert_point(sorted, x) > 0 ==> result_le(
            sorted[result_insert_point(sorted, x) - 1],
            x,
        ),
    decreases sorted.len(),
{
    if sorted.len() > 0 && !result_le(sorted.last(), x) {
        let front = sorted.drop_last();
        lemma_result_insert_point(front, x);
        assert forall|k: int| result_insert_point(sorted, x) <= k < sorted.len() implies !result_le(
            sorted[k],
            x,
        ) by {
            if k < front.len() {
                assert(sorted[k] == front[k]);
            }
        }
        if result_insert_point(sorted, x) > 0 {
            assert(sorted[result_insert_point(sorted, x) - 1] == front[result_insert_point(
                front,
                x,
            ) - 1]);
        }
    }
}

/// Inserting keeps a sorted sequence sorted and adds just the one rider.
pub proof fn lemma_rider_inserted_sorted(sorted: Seq<RiderModel>, x: RiderModel)
    requires
        sorted_by_rank(sorted),
    ensures
        sorted_by_rank(rider_inserted(sorted, x)),
        rider_inserted(sorted, x).to_multiset() == sorted.to_multiset().insert(x),
{
    let j = rider_insert_point(sorted, x);
    lemma_rider_insert_point(sorted, x);
    lemma_rider_inserted_at(sorted, x, j);
    let out = rider_inserted(sorted, x);
    assert forall|a: int, b: int| 0 <= a < b < out.len() implies key_le(
        rank_key(out[a]),
        rank_key(out[b]),
    ) by {
        if b < j {
            assert(out[a] == sorted[a] && out[b] == sorted[b]);
        } else if b == j {
            assert(out[a] == sorted[a] && out[b] == x);
            if a < j - 1 {
                assert(key_le(rank_key(sorted[a]), rank_key(sorted[j - 1])));
            }
        } else if a == j {
            assert(out[a] == x && out[b] == sorted[b - 1]);
        } else if a < j {
            assert(out[a] == sorted[a] && out[b] == sorted[b - 1]);
        } else {
            assert(out[a] == sorted[a - 1] && out[b] == sorted[b - 1]);
        }
    }
    lemma_rider_inserted_multiset(sorted, x);
}

proof fn lemma_rider_inserted_multiset(sorted: Seq<RiderModel>, x: RiderModel)
    ensures
        rider_inserted(sorted, x).to_multiset() == sorted.to_multiset().insert(x),
    decreases sorted.len(),
{
    if sorted.len() == 0 {
        assert(seq![x] == sorted.push(x));
        to_multiset_build(sorted, x);
    } else if key_le(rank_key(sorted.last()), rank_key(x)) {
        to_multiset_build(sorted, x);
    } else {
        let front = sorted.drop_last();
        lemma_rider_inserted_multiset(front, x);
        to_multiset_build(rider_inserted(front, x), sorted.last());
        assert(sorted == front.push(sorted.last()));
        to_multiset_build(front, sorted.last());
        assert(front.to_multiset().insert(x).insert(sorted.last()) =~= front.to_multiset().insert(
            sorted.last(),
        ).insert(x));
    }
}

/// The running order ranks: the riders by rank never fall in rank from
/// front to back, and they are the riders of the moto, each as often as
/// staged.
pub proof fn law_ranked_is_sorted_permutation(riders: Seq<RiderModel>)
    ensures
        sorted_by_rank(ranked(riders)),
        ranked(riders).to_multiset() == riders.to_multiset(),
        ranked(riders).len() == riders.len(),
    decreases riders.len(),
{
    lemma_ranked_len(riders);
    if riders.len() == 0 {
        assert(riders =~= ranked(riders));
    } else {
        let front = riders.drop_last();
        law_ranked_is_sorted_permutation(front);
        lemma_rider_inserted_sorted(ranked(front), riders.last());
        assert(riders == front.push(riders.last()));
        to_multiset_build(front, riders.last());
    }
}

/// Inserting keeps a sorted result list sorted.
proof fn lemma_result_inserted_sorted(sorted: Seq<FinishResult>, x: FinishResult)
    requires
        sorted_results(sorted),
    ensures
        sorted_results(result_inserted(sorted, x)),
        result_inserted(sorted, x).len() == sorted.len() + 1,
{
    let j = result_insert_point(sorted, x);
    lemma_result_insert_point(sorted, x);
    lemma_result_inserted_at(sorted, x, j);
    let out = result_inserted(sorted, x);
    assert forall|a: int, b: int| 0 <= a < b < out.len() implies result_le(out[a], out[b]) by {
        if b < j {
            assert(out[a] == sorted[a] && out[b] == sorted[b]);
        } else if b == j {
            assert(out[a] == sorted[a] && out[b] == x);
            if a < j - 1 {
                assert(result_le(sorted[a], sorted[j - 1]));
            }
        } else if a == j {
            assert(out[a] == x && out[b] == sorted[b - 1]);
        } else if a < j {
            assert(out[a] == sorted[a] && out[b] == sorted[b - 1]);
        } else {
            assert(out[a] == sorted[a - 1] && out[b] == sorted[b - 1]);
        }
    }
}

proof fn lemma_results_upto_sorted(riders: Seq<RiderModel>, n: int, leader: Option<u64>)
    requires
        0 <= n <= riders.len(),
    ensures
        sorted_results(results_upto(riders, n, leader)),
        results_upto(riders, n, leader).len() == n,
    decreases n,
{
    if n > 0 {
        lemma_results_upto_sorted(riders, n - 1, leader);
        lemma_result_inserted_sorted(
            results_upto(riders, n - 1, leader),
            result_of(riders[n - 1], leader),
        );
    }
}

/// The classification is in order: riders who finished come before those
/// who did not, each group by position; and it has one result a rider.
pub proof fn law_results_are_sorted(riders: Seq<RiderModel>)
    ensures
        sorted_results(results(riders)),
        results(riders).len() == riders.len(),
{
    lemma_results_upto_sorted(riders, riders.len() as int, least_finish_time(riders));
}

} // verus!
