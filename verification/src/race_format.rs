//! Race formats and moto sheets.
//!
//! The number of riders in a class decides the format. The three
//! qualifying rounds seat up to eight riders a heat and rotate the lanes by
//! two from round to round.

use vstd::prelude::*;
use vstd::string::StringExecFns;
use crate::text::{decimal, push_decimal};

verus! {

/// How a class is raced.
#[derive(Debug, Clone, Copy, PartialEq, Eq, Structural)]
pub enum RaceFormat {
    /// Three motos, scored on total points.
    MotosOnly,
    /// Three motos and a main.
    MotosMain,
    /// Three motos, two semis and a main.
    MotosSemisMain,
    /// Three motos, quarters, semis and a main.
    MotosQuartersSemisMain,
}

/// One moto of a sheet.
#[derive(Debug, Clone, PartialEq)]
pub struct MotoAssignment {
    pub round_type: String,
    pub round_number: Option<i64>,
    pub sequence: i64,
    /// Rider id and lane, ordered by lane.
    pub entries: Vec<(String, i64)>,
}

/// The name of a format.
pub open spec fn format_name(format: RaceFormat) -> Seq<char> {
    match format {
        RaceFormat::MotosOnly => "motos_only"@,
        RaceFormat::MotosMain => "motos_main"@,
        RaceFormat::MotosSemisMain => "motos_semis_main"@,
        RaceFormat::MotosQuartersSemisMain => "motos_quarters_semis_main"@,
    }
}

/// The format for a number of riders: up to 8 motos only, up to 16 with a
/// main, up to 23 with semis, beyond that with quarters.
pub open spec fn format_for(rider_count: int) -> RaceFormat {
    if rider_count <= 8 {
        RaceFormat::MotosOnly
    } else if rider_count <= 16 {
        RaceFormat::MotosMain
    } else if rider_count <= 23 {
        RaceFormat::MotosSemisMain
    } else {
        RaceFormat::MotosQuartersSemisMain
    }
}

/// The number of heats that a round needs: eight riders a heat.
pub open spec fn heats_for(rider_count: int) -> int {
    (rider_count + 7) / 8
}

/// The lane of the rider at place `k` of a heat in round `round`, rounds
/// counted from 0: the lanes rotate by two a round.
pub open spec fn lane_of(round: int, k: int) -> int {
    (k + 2 * round) % 8 + 1
}

/// The place in the heat of the rider who gets lane `lane` in round
/// `round`.
pub open spec fn place_at(round: int, lane: int) -> int {
    (lane - 1 + 8 - (2 * round) % 8) % 8
}

/// The entries of a heat for the lanes 1 to `lane`, ordered by lane.
pub open spec fn entries_upto(ids: Seq<String>, round: int, heat: int, lane: int) -> Seq<
    (String, i64),
>
    decreases lane,
{
    if lane <= 0 {
        Seq::empty()
    } else {
        let before = entries_upto(ids, round, heat, lane - 1);
        let index = heat * 8 + place_at(round, lane);
        if index < ids.len() {
            before.push((ids[index], lane as i64))
        } else {
            before
        }
    }
}

/// The entries of a heat: each rider of the heat with the lane of the
/// round, ordered by lane.
pub open spec fn heat_entries(ids: Seq<String>, round: int, heat: int) -> Seq<(String, i64)> {
    entries_upto(ids, round, heat, 8)
}

/// Whether a moto is heat `heat` of qualifying round `round`, both counted
/// from 0, of a sheet with `heats` heats a round.
pub open spec fn is_qualifying_moto(
    moto: MotoAssignment,
    ids: Seq<String>,
    round: int,
    heat: int,
    heats: int,
) -> bool {
    &&& moto.round_type@ == "moto"@ + decimal((round + 1) as nat)
    &&& moto.round_number == Some((heat + 1) as i64)
    &&& moto.sequence == round * heats + heat + 1
    &&& moto.entries@ == heat_entries(ids, round, heat)
}

/// Round type and round number of each elimination moto of a format, in
/// the order raced.
pub open spec fn elimination_plan(format: RaceFormat) -> Seq<(Seq<char>, Option<i64>)> {
    match format {
        RaceFormat::MotosOnly => Seq::empty(),
        RaceFormat::MotosMain => seq![("main"@, None::<i64>)],
        RaceFormat::MotosSemisMain => seq![
            ("semi"@, Some(1i64)),
            ("semi"@, Some(2i64)),
            ("main"@, None::<i64>),
        ],
        RaceFormat::MotosQuartersSemisMain => seq![
            ("quarter"@, Some(1i64)),
            ("quarter"@, Some(2i64)),
            ("quarter"@, Some(3i64)),
            ("quarter"@, Some(4i64)),
            ("semi"@, Some(1i64)),
            ("semi"@, Some(2i64)),
            ("main"@, None::<i64>),
        ],
    }
}

/// Whether a moto is moto `i` of the elimination rounds of a format: an
/// empty shell, to be filled from the qualifying results.
pub open spec fn is_elimination_moto(
    moto: MotoAssignment,
    format: RaceFormat,
    start_sequence: i64,
    i: int,
) -> bool {
    &&& moto.round_type@ == elimination_plan(format)[i].0
    &&& moto.round_number == elimination_plan(format)[i].1
    &&& moto.sequence == start_sequence + i
    &&& moto.entries@.len() == 0
}

impl RaceFormat {
    /// The name of the format.
    pub fn as_str(&self) -> (s: &'static str)
        ensures
            s@ == format_name(*self),
    {
        match self {
            RaceFormat::MotosOnly => "motos_only",
            RaceFormat::MotosMain => "motos_main",
            RaceFormat::MotosSemisMain => "motos_semis_main",
            RaceFormat::MotosQuartersSemisMain => "motos_quarters_semis_main",
        }
    }
}

/// Chooses the format for a number of riders.
pub fn determine_format(rider_count: usize) -> (format: RaceFormat)
    ensures
        format == format_for(rider_count as int),
{
    if rider_count <= 8 {
        RaceFormat::MotosOnly
    } else if rider_count <= 16 {
        RaceFormat::MotosMain
    } else if rider_count <= 23 {
        RaceFormat::MotosSemisMain
    } else {
        RaceFormat::MotosQuartersSemisMain
    }
}

/// Lane and place determine each other: the rider at place `k` sits in
/// lane `lane_of(round, k)`, and no other.
pub proof fn law_lanes_rotate(round: int, k: int)
    requires
        0 <= round,
        0 <= k < 8,
    ensures
        1 <= lane_of(round, k) <= 8,
        place_at(round, lane_of(round, k)) == k,
{
}

/// Every lane is taken by the place `place_at` names.
pub proof fn law_places_rotate(round: int, lane: int)
    requires
        0 <= round,
        1 <= lane <= 8,
    ensures
        0 <= place_at(round, lane) < 8,
        lane_of(round, place_at(round, lane)) == lane,
{
}

/// Builds the entries of one heat.
fn build_heat(rider_ids: &[String], round: usize, heat: usize) -> (entries: Vec<(String, i64)>)
    requires
        round < 3,
        heat * 8 < rider_ids@.len(),
    ensures
        entries@ == heat_entries(rider_ids@, round as int, heat as int),
{
    let mut entries: Vec<(String, i64)> = Vec::new();
    let rider_count = rider_ids.len();
    let rotation: usize = (round * 2) % 8;
    let first: usize = heat * 8;
    let mut lane: usize = 1;
    while lane <= 8
        invariant
            1 <= lane <= 9,
            round < 3,
            rotation == (round * 2) % 8,
            first == heat * 8,
            first < rider_ids@.len(),
            entries@ == entries_upto(rider_ids@, round as int, heat as int, lane - 1),
        decreases 9 - lane,
    {
        let place: usize = (lane - 1 + 8 - rotation) % 8;
        if place < rider_ids.len() - first {
            entries.push((rider_ids[first + place].clone(), lane as i64));
        }
        lane += 1;
    }
    entries
}

/// Builds the moto sheets of the three qualifying rounds. Each round has
/// as many heats as eight riders a heat need; heat `h` seats the riders
/// `8h` to `8h + 7` of the list. Sequence numbers count from 1 through the
/// rounds. An empty list gives no motos.
pub fn generate_qualifying_motos(rider_ids: &[String]) -> (motos: Vec<MotoAssignment>)
    ensures
        motos@.len() == 3 * heats_for(rider_ids@.len() as int),
        forall|round: int, heat: int|
            0 <= round < 3 && 0 <= heat < heats_for(rider_ids@.len() as int)
                ==> is_qualifying_moto(
                #[trigger] motos@[round * heats_for(rider_ids@.len() as int) + heat],
                rider_ids@,
                round,
                heat,
                heats_for(rider_ids@.len() as int),
            ),
{
    let rider_count = rider_ids.len();
    let heats_per_round: usize = rider_count / 8 + if rider_count % 8 != 0 {
        1
    } else {
        0
    };
    let ghost heats = heats_per_round as int;
    let mut motos: Vec<MotoAssignment> = Vec::new();
    let mut sequence: i64 = 1;
    let mut round: usize = 0;
    proof {
        reveal_strlit("moto");
    }
    while round < 3
        invariant
            round <= 3,
            heats == heats_per_round,
            heats == heats_for(rider_ids@.len() as int),
            rider_count == rider_ids@.len(),
            motos@.len() == round * heats,
            sequence == round * heats + 1,
            forall|r: int, h: int|
                0 <= r < round && 0 <= h < heats ==> is_qualifying_moto(
                    #[trigger] motos@[r * heats + h],
                    rider_ids@,
                    r,
                    h,
                    heats,
                ),
        decreases 3 - round,
    {
        let mut heat: usize = 0;
        while heat < heats_per_round
            invariant
                round < 3,
                heat <= heats_per_round,
                heats == heats_per_round,
                heats == heats_for(rider_ids@.len() as int),
                rider_count == rider_ids@.len(),
                motos@.len() == round * heats + heat,
                sequence == round * heats + heat + 1,
                forall|r: int, h: int|
                    0 <= r < round && 0 <= h < heats ==> is_qualifying_moto(
                        #[trigger] motos@[r * heats + h],
                        rider_ids@,
                        r,
                        h,
                        heats,
                    ),
                forall|h: int|
                    0 <= h < heat ==> is_qualifying_moto(
                        #[trigger] motos@[round * heats + h],
                        rider_ids@,
                        round as int,
                        h,
                        heats,
                    ),
            decreases heats_per_round - heat,
        {
            let mut round_type = String::from_str("moto");
            push_decimal(&mut round_type, (round + 1) as u64);
            let entries = build_heat(rider_ids, round, heat);
            let ghost before = motos@;
            let moto = MotoAssignment {
                round_type,
                round_number: Some(heat as i64 + 1),
                sequence,
                entries,
            };
            proof {
                assert(is_qualifying_moto(moto, rider_ids@, round as int, heat as int, heats));
                assert(round * heats + heat == before.len()) by (nonlinear_arith)
                    requires
                        before.len() == round * heats + heat,
                ;
            }
            motos.push(moto);
            proof {
                assert forall|r: int, h: int| 0 <= r < round && 0 <= h < heats implies is_qualifying_moto(
                    #[trigger] motos@[r * heats + h],
                    rider_ids@,
                    r,
                    h,
                    heats,
                ) by {
                    assert(r * heats + h < round * heats) by (nonlinear_arith)
                        requires
                            0 <= r < round,
                            0 <= h < heats,
                    ;
                    assert(motos@[r * heats + h] == before[r * heats + h]);
                }
                assert forall|h: int| 0 <= h < heat + 1 implies is_qualifying_moto(
                    #[trigger] motos@[round * heats + h],
                    rider_ids@,
                    round as int,
                    h,
                    heats,
                ) by {
                    if h < heat {
                        assert(motos@[round * heats + h] == before[round * heats + h]);
                    }
                }
            }
            sequence += 1;
            heat += 1;
        }
        proof {
            assert((round + 1) * heats == round * heats + heats) by (nonlinear_arith);
        }
        round += 1;
    }
    motos
}

/// Makes an empty moto of the elimination rounds.
fn shell(round_type: &str, round_number: Option<i64>, sequence: i64) -> (moto: MotoAssignment)
    ensures
        moto.round_type@ == round_type@,
        moto.round_number == round_number,
        moto.sequence == sequence,
        moto.entries@.len() == 0,
{
    MotoAssignment {
        round_type: String::from_str(round_type),
        round_number,
        sequence,
        entries: Vec::new(),
    }
}

/// Builds the motos of the elimination rounds of a format, numbered from
/// `start_sequence`. They are empty shells: riders are seated once the
/// qualifying results are known.
pub fn generate_elimination_motos(format: &RaceFormat, start_sequence: i64) -> (motos: Vec<
    MotoAssignment,
>)
    requires
        start_sequence <= i64::MAX - 7,
    ensures
        motos@.len() == elimination_plan(*format).len(),
        forall|i: int|
            0 <= i < motos@.len() ==> is_elimination_moto(
                #[trigger] motos@[i],
                *format,
                start_sequence,
                i,
            ),
{
    let mut motos: Vec<MotoAssignment> = Vec::new();
    match format {
        RaceFormat::MotosOnly => {},
        RaceFormat::MotosMain => {
            motos.push(shell("main", None, start_sequence));
        },
        RaceFormat::MotosSemisMain => {
            motos.push(shell("semi", Some(1), start_sequence));
            motos.push(shell("semi", Some(2), start_sequence + 1));
            motos.push(shell("main", None, start_sequence + 2));
        },
        RaceFormat::MotosQuartersSemisMain => {
            motos.push(shell("quarter", Some(1), start_sequence));
            motos.push(shell("quarter", Some(2), start_sequence + 1));
            motos.push(shell("quarter", Some(3), start_sequence + 2));
            motos.push(shell("quarter", Some(4), start_sequence + 3));
            motos.push(shell("semi", Some(1), start_sequence + 4));
            motos.push(shell("semi", Some(2), start_sequence + 5));
            motos.push(shell("main", None, start_sequence + 6));
        },
    }
    motos
}

} // verus!
