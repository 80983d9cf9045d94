use p3_timing::engine::model::RacePhase;
use p3_timing::engine::processor::{
    calculate_position_at_loop, is_gate_drop, leader_time_at_loop, record_split,
};
use p3_timing::engine::race_event::{
    FinishResult, LoopConfig, RaceEvent, RiderPosition, RiderState, StagedRider, TrackConfig,
};
use p3_timing::engine::state::RaceEngine;
use p3_timing::parser::messages::PassingMessage;

fn make_track(gate_beacon_id: u32) -> TrackConfig {
    TrackConfig {
        track_id: "t1".into(),
        name: "Test".into(),
        gate_beacon_id,
        loops: vec![],
    }
}

fn bare_passing(transponder_id: u32) -> PassingMessage {
    PassingMessage {
        passing_number: 1,
        transponder_id,
        rtc_time_us: 1_000_000,
        utc_time_us: None,
        strength: None,
        hits: None,
        transponder_string: None,
        flags: 0,
        decoder_id: None,
    }
}

fn test_track() -> TrackConfig {
    TrackConfig {
        track_id: "track-1".into(),
        name: "Test BMX Track".into(),
        gate_beacon_id: 9992,
        loops: vec![
            LoopConfig {
                loop_id: "loop-start".into(),
                name: "Start Hill".into(),
                decoder_id: "D0000C01".into(),
                position: 0,
                is_start: true,
                is_finish: false,
            },
            LoopConfig {
                loop_id: "loop-corner1".into(),
                name: "Corner 1".into(),
                decoder_id: "D0000C02".into(),
                position: 1,
                is_start: false,
                is_finish: false,
            },
            LoopConfig {
                loop_id: "loop-finish".into(),
                name: "Finish".into(),
                decoder_id: "D0000C03".into(),
                position: 2,
                is_start: false,
                is_finish: true,
            },
        ],
    }
}

fn staged(rider_id: &str, first: &str, last: &str, plate: &str, transponder_id: u32, lane: u32) -> StagedRider {
    StagedRider {
        rider_id: rider_id.into(),
        first_name: first.into(),
        last_name: last.into(),
        plate_number: plate.into(),
        transponder_id,
        lane,
    }
}

fn test_riders() -> Vec<StagedRider> {
    vec![
        staged("rider-1", "Alice", "Smith", "42", 1001, 1),
        staged("rider-2", "Bob", "Jones", "7", 1002, 2),
        staged("rider-3", "Charlie", "Brown", "99", 1003, 3),
    ]
}

fn make_passing(transponder_id: u32, decoder_id: &str, rtc_time_us: u64) -> PassingMessage {
    PassingMessage {
        passing_number: 1,
        transponder_id,
        rtc_time_us,
        utc_time_us: None,
        strength: Some(100),
        hits: Some(40),
        transponder_string: None,
        flags: 0,
        decoder_id: Some(decoder_id.to_string()),
    }
}

fn staged_engine() -> RaceEngine {
    let mut engine = RaceEngine::new();
    engine.set_track(test_track());
    engine.stage_moto("moto-1".into(), "Novice".into(), "moto1".into(), test_riders());
    engine
}

fn rider_with_split(id: &str, transponder: u32, lane: u32, loop_id: &str, time: u64) -> RiderState {
    let mut rider = RiderState::new(id.into(), id.to_uppercase(), id.to_uppercase(), lane.to_string(), transponder, lane);
    record_split(&mut rider.splits, &loop_id.to_string(), time);
    rider
}

#[test]
fn test_gate_drop_configured_beacon() {
    let track = make_track(9992);
    assert!(is_gate_drop(&bare_passing(9992), &track));
}

#[test]
fn test_gate_drop_all_reserved_ids() {
    let track = make_track(9992);
    assert!(is_gate_drop(&bare_passing(9991), &track));
    assert!(is_gate_drop(&bare_passing(9992), &track));
    assert!(is_gate_drop(&bare_passing(9995), &track));
}

#[test]
fn test_rider_not_gate_drop() {
    let track = make_track(9992);
    assert!(!is_gate_drop(&bare_passing(1001), &track));
    assert!(!is_gate_drop(&bare_passing(5000), &track));
}

#[test]
fn test_gate_drop_custom_beacon() {
    let track = make_track(4242);
    assert!(is_gate_drop(&bare_passing(4242), &track));
    assert!(is_gate_drop(&bare_passing(9995), &track));
    assert!(!is_gate_drop(&bare_passing(4243), &track));
}

#[test]
fn test_position_calculation() {
    let loop_config = LoopConfig {
        loop_id: "loop-1".into(),
        name: "Corner 1".into(),
        decoder_id: "D001".into(),
        position: 1,
        is_start: false,
        is_finish: false,
    };

    let riders = vec![
        rider_with_split("a", 1001, 1, "loop-1", 5_000_000),
        rider_with_split("b", 1002, 2, "loop-1", 4_500_000),
        rider_with_split("c", 1003, 3, "loop-1", 5_200_000),
    ];

    assert_eq!(calculate_position_at_loop(&riders, &loop_config, &"a".to_string()), 2);
    assert_eq!(calculate_position_at_loop(&riders, &loop_config, &"b".to_string()), 1);
    assert_eq!(calculate_position_at_loop(&riders, &loop_config, &"c".to_string()), 3);
}

#[test]
fn test_position_without_time_is_one() {
    let loop_config = LoopConfig {
        loop_id: "loop-2".into(),
        name: "Corner 2".into(),
        decoder_id: "D002".into(),
        position: 2,
        is_start: false,
        is_finish: false,
    };
    let riders = vec![
        rider_with_split("a", 1001, 1, "loop-1", 5_000_000),
        rider_with_split("b", 1002, 2, "loop-2", 4_500_000),
    ];
    assert_eq!(calculate_position_at_loop(&riders, &loop_config, &"a".to_string()), 1);
    assert_eq!(calculate_position_at_loop(&riders, &loop_config, &"nobody".to_string()), 1);
    assert_eq!(calculate_position_at_loop(&riders, &loop_config, &"b".to_string()), 1);
}

#[test]
fn test_position_ties_share_a_place() {
    let loop_config = LoopConfig {
        loop_id: "loop-1".into(),
        name: "Corner 1".into(),
        decoder_id: "D001".into(),
        position: 1,
        is_start: false,
        is_finish: false,
    };
    let riders = vec![
        rider_with_split("a", 1001, 1, "loop-1", 5_000_000),
        rider_with_split("b", 1002, 2, "loop-1", 5_000_000),
        rider_with_split("c", 1003, 3, "loop-1", 6_000_000),
    ];
    assert_eq!(calculate_position_at_loop(&riders, &loop_config, &"a".to_string()), 1);
    assert_eq!(calculate_position_at_loop(&riders, &loop_config, &"b".to_string()), 1);
    assert_eq!(calculate_position_at_loop(&riders, &loop_config, &"c".to_string()), 3);
}

#[test]
fn test_leader_time() {
    let loop_config = LoopConfig {
        loop_id: "loop-1".into(),
        name: "Corner 1".into(),
        decoder_id: "D001".into(),
        position: 1,
        is_start: false,
        is_finish: false,
    };

    let riders = vec![
        rider_with_split("a", 1001, 1, "loop-1", 5_000_000),
        rider_with_split("b", 1002, 2, "loop-1", 4_500_000),
    ];

    assert_eq!(leader_time_at_loop(&riders, &loop_config), Some(4_500_000));
}

#[test]
fn test_leader_time_none_without_splits() {
    let loop_config = LoopConfig {
        loop_id: "loop-9".into(),
        name: "Nowhere".into(),
        decoder_id: "D009".into(),
        position: 9,
        is_start: false,
        is_finish: false,
    };
    let riders = vec![rider_with_split("a", 1001, 1, "loop-1", 5_000_000)];
    assert_eq!(leader_time_at_loop(&riders, &loop_config), None);
    assert_eq!(leader_time_at_loop(&Vec::new(), &loop_config), None);
}

#[test]
fn test_record_split_overwrites() {
    let mut rider = RiderState::new("a".into(), "A".into(), "A".into(), "1".into(), 1, 1);
    record_split(&mut rider.splits, &"x".to_string(), 10);
    record_split(&mut rider.splits, &"y".to_string(), 20);
    record_split(&mut rider.splits, &"x".to_string(), 30);
    assert_eq!(rider.splits.len(), 2);
    assert_eq!(rider.splits[0].loop_id, "x");
    assert_eq!(rider.splits[0].elapsed_us, 30);
    assert_eq!(rider.splits[1].loop_id, "y");
    assert_eq!(rider.splits[1].elapsed_us, 20);
}

#[test]
fn test_idle_ignores_passings() {
    let mut engine = RaceEngine::new();
    engine.set_track(test_track());

    let passing = make_passing(1001, "D0000C01", 1_000_000);
    let events = engine.process_passing(&passing);
    assert!(events.is_empty());
}

#[test]
fn test_stage_moto() {
    let mut engine = RaceEngine::new();
    engine.set_track(test_track());

    let event = engine.stage_moto("moto-1".into(), "Novice".into(), "moto1".into(), test_riders());

    assert!(matches!(engine.phase(), RacePhase::Staged { .. }));

    let event = event.unwrap();
    assert!(matches!(event, RaceEvent::RaceStaged { .. }));
}

#[test]
fn test_gate_drop_transitions_to_racing() {
    let mut engine = staged_engine();

    let gate = make_passing(9992, "D0000C01", 10_000_000);
    let events = engine.process_passing(&gate);

    assert_eq!(events.len(), 1);
    assert!(matches!(events[0], RaceEvent::GateDrop { .. }));
    assert!(matches!(engine.phase(), RacePhase::Racing { .. }));
}

#[test]
fn test_split_time_and_positions() {
    let mut engine = staged_engine();

    let gate = make_passing(9992, "D0000C01", 10_000_000);
    engine.process_passing(&gate);

    let early = make_passing(1002, "D0000C01", 11_000_000);
    let events = engine.process_passing(&early);
    assert!(events
        .iter()
        .any(|e| matches!(e, RaceEvent::SplitTime { rider_id, .. } if rider_id == "rider-2")));
    assert!(events.iter().any(|e| matches!(e, RaceEvent::PositionsUpdate { .. })));

    let late = make_passing(1001, "D0000C01", 11_200_000);
    let events = engine.process_passing(&late);
    assert!(events
        .iter()
        .any(|e| matches!(e, RaceEvent::SplitTime { rider_id, .. } if rider_id == "rider-1")));
}

#[test]
fn test_finish_and_race_complete() {
    let mut engine = staged_engine();

    engine.process_passing(&make_passing(9992, "D0000C01", 10_000_000));

    engine.process_passing(&make_passing(1001, "D0000C01", 11_000_000));
    engine.process_passing(&make_passing(1001, "D0000C02", 15_000_000));
    let events = engine.process_passing(&make_passing(1001, "D0000C03", 20_000_000));
    assert!(events
        .iter()
        .any(|e| matches!(e, RaceEvent::RiderFinished { finish_position: 1, .. })));

    engine.process_passing(&make_passing(1002, "D0000C01", 11_200_000));
    engine.process_passing(&make_passing(1002, "D0000C02", 15_500_000));
    let events = engine.process_passing(&make_passing(1002, "D0000C03", 21_000_000));
    assert!(events
        .iter()
        .any(|e| matches!(e, RaceEvent::RiderFinished { finish_position: 2, .. })));

    engine.process_passing(&make_passing(1003, "D0000C01", 11_500_000));
    engine.process_passing(&make_passing(1003, "D0000C02", 16_000_000));
    let events = engine.process_passing(&make_passing(1003, "D0000C03", 22_000_000));
    assert!(events.iter().any(|e| matches!(e, RaceEvent::RaceFinished { .. })));
    assert!(matches!(engine.phase(), RacePhase::Finished { .. }));
}

#[test]
fn test_force_finish() {
    let mut engine = staged_engine();

    engine.process_passing(&make_passing(9992, "D0000C01", 10_000_000));

    engine.process_passing(&make_passing(1001, "D0000C01", 11_000_000));
    engine.process_passing(&make_passing(1001, "D0000C03", 20_000_000));

    let event = engine.force_finish();
    assert!(event.is_some());
    assert!(matches!(engine.phase(), RacePhase::Finished { .. }));

    if let Some(RaceEvent::RaceFinished { results, .. }) = event {
        assert_eq!(results.len(), 3);
        let dnf_count = results.iter().filter(|r| r.dnf).count();
        assert_eq!(dnf_count, 2);
    } else {
        panic!("Expected RaceFinished");
    }
}

#[test]
fn test_reset_to_idle() {
    let mut engine = staged_engine();

    let event = engine.reset();
    assert!(matches!(engine.phase(), RacePhase::Idle));
    assert_eq!(event, RaceEvent::RaceReset);
}

#[test]
fn test_state_snapshot() {
    let engine = staged_engine();

    let snapshot = engine.state_snapshot();
    if let RaceEvent::StateSnapshot { phase, moto_id, riders, total_riders, .. } = snapshot {
        assert_eq!(phase, "staged");
        assert_eq!(moto_id, Some("moto-1".to_string()));
        assert_eq!(riders.len(), 3);
        assert_eq!(total_riders, 3);
    } else {
        panic!("Expected StateSnapshot");
    }
}

fn two_rider_engine() -> RaceEngine {
    let mut engine = RaceEngine::new();
    engine.set_track(test_track());
    engine.stage_moto(
        "M".into(),
        "Expert".into(),
        "main".into(),
        vec![staged("R1", "Ann", "A", "1", 1001, 1), staged("R2", "Ben", "B", "2", 1002, 2)],
    );
    engine
}

fn position(rider_id: &str, plate: &str, first: &str, last: &str, lane: u32, position: u32,
    last_loop: Option<&str>, elapsed_us: Option<u64>, gap: Option<u64>, finished: bool, dnf: bool) -> RiderPosition {
    RiderPosition {
        rider_id: rider_id.into(),
        plate_number: plate.into(),
        first_name: first.into(),
        last_name: last.into(),
        lane,
        position,
        last_loop: last_loop.map(|s| s.to_string()),
        elapsed_us,
        gap_to_leader_us: gap,
        finished,
        dnf,
    }
}

#[test]
fn test_scenario_stage_gate_two_rider_finish() {
    let mut engine = RaceEngine::new();
    engine.set_track(test_track());
    let riders = vec![staged("R1", "Ann", "A", "1", 1001, 1), staged("R2", "Ben", "B", "2", 1002, 2)];
    let staged_event = engine.stage_moto("M".into(), "Expert".into(), "main".into(), riders.clone());
    assert_eq!(
        staged_event,
        Some(RaceEvent::RaceStaged {
            moto_id: "M".into(),
            class_name: "Expert".into(),
            round_type: "main".into(),
            riders,
        })
    );

    let events = engine.process_passing(&make_passing(9992, "D0000C01", 10_000_000));
    assert_eq!(events, vec![RaceEvent::GateDrop { moto_id: "M".into(), timestamp_us: 10_000_000 }]);

    let events = engine.process_passing(&make_passing(1001, "D0000C03", 20_000_000));
    assert_eq!(
        events,
        vec![
            RaceEvent::SplitTime {
                moto_id: "M".into(),
                rider_id: "R1".into(),
                loop_name: "Finish".into(),
                is_finish: true,
                elapsed_us: 10_000_000,
                position: 1,
                gap_to_leader_us: Some(0),
            },
            RaceEvent::RiderFinished {
                moto_id: "M".into(),
                rider_id: "R1".into(),
                finish_position: 1,
                elapsed_us: 10_000_000,
                gap_to_leader_us: Some(0),
            },
            RaceEvent::PositionsUpdate {
                moto_id: "M".into(),
                positions: vec![
                    position("R1", "1", "Ann", "A", 1, 1, Some("Finish"), Some(10_000_000), None, true, false),
                    position("R2", "2", "Ben", "B", 2, 2, None, None, None, false, false),
                ],
            },
        ]
    );

    let events = engine.process_passing(&make_passing(1002, "D0000C03", 21_000_000));
    assert_eq!(events.len(), 4);
    assert_eq!(
        events[0],
        RaceEvent::SplitTime {
            moto_id: "M".into(),
            rider_id: "R2".into(),
            loop_name: "Finish".into(),
            is_finish: true,
            elapsed_us: 11_000_000,
            position: 2,
            gap_to_leader_us: Some(1_000_000),
        }
    );
    assert_eq!(
        events[1],
        RaceEvent::RiderFinished {
            moto_id: "M".into(),
            rider_id: "R2".into(),
            finish_position: 2,
            elapsed_us: 11_000_000,
            gap_to_leader_us: Some(1_000_000),
        }
    );
    assert_eq!(
        events[2],
        RaceEvent::PositionsUpdate {
            moto_id: "M".into(),
            positions: vec![
                position("R1", "1", "Ann", "A", 1, 1, Some("Finish"), Some(10_000_000), None, true, false),
                position("R2", "2", "Ben", "B", 2, 2, Some("Finish"), Some(11_000_000), Some(1_000_000), true, false),
            ],
        }
    );
    assert_eq!(
        events[3],
        RaceEvent::RaceFinished {
            moto_id: "M".into(),
            results: vec![
                FinishResult {
                    rider_id: "R1".into(),
                    plate_number: "1".into(),
                    first_name: "Ann".into(),
                    last_name: "A".into(),
                    position: 1,
                    elapsed_us: Some(10_000_000),
                    gap_to_leader_us: None,
                    dnf: false,
                    dns: false,
                },
                FinishResult {
                    rider_id: "R2".into(),
                    plate_number: "2".into(),
                    first_name: "Ben".into(),
                    last_name: "B".into(),
                    position: 2,
                    elapsed_us: Some(11_000_000),
                    gap_to_leader_us: Some(1_000_000),
                    dnf: false,
                    dns: false,
                },
            ],
        }
    );
    assert!(matches!(engine.phase(), RacePhase::Finished { .. }));

    assert!(engine.process_passing(&make_passing(1002, "D0000C03", 22_000_000)).is_empty());
    assert_eq!(engine.force_finish(), None);
}

#[test]
fn test_scenario_force_finish_with_unfinished_rider() {
    let mut engine = two_rider_engine();
    engine.process_passing(&make_passing(9992, "D0000C01", 10_000_000));
    engine.process_passing(&make_passing(1001, "D0000C03", 20_000_000));

    let event = engine.force_finish();
    assert_eq!(
        event,
        Some(RaceEvent::RaceFinished {
            moto_id: "M".into(),
            results: vec![
                FinishResult {
                    rider_id: "R1".into(),
                    plate_number: "1".into(),
                    first_name: "Ann".into(),
                    last_name: "A".into(),
                    position: 1,
                    elapsed_us: Some(10_000_000),
                    gap_to_leader_us: None,
                    dnf: false,
                    dns: false,
                },
                FinishResult {
                    rider_id: "R2".into(),
                    plate_number: "2".into(),
                    first_name: "Ben".into(),
                    last_name: "B".into(),
                    position: 0,
                    elapsed_us: None,
                    gap_to_leader_us: None,
                    dnf: true,
                    dns: false,
                },
            ],
        })
    );
    assert!(matches!(engine.phase(), RacePhase::Finished { .. }));
    assert_eq!(engine.force_finish(), None);
}

#[test]
fn test_passing_without_track_is_ignored() {
    let mut engine = RaceEngine::new();
    engine.stage_moto("M".into(), "C".into(), "moto1".into(), test_riders());
    assert!(engine.process_passing(&make_passing(9992, "D0000C01", 1)).is_empty());
    assert!(matches!(engine.phase(), RacePhase::Staged { .. }));
}

#[test]
fn test_staged_ignores_rider_passing() {
    let mut engine = staged_engine();
    assert!(engine.process_passing(&make_passing(1001, "D0000C01", 1)).is_empty());
    assert!(matches!(engine.phase(), RacePhase::Staged { .. }));
}

#[test]
fn test_racing_ignores_gate_and_unmapped() {
    let mut engine = staged_engine();
    engine.process_passing(&make_passing(9992, "D0000C01", 10_000_000));
    assert!(engine.process_passing(&make_passing(9991, "D0000C01", 11_000_000)).is_empty());
    assert!(engine.process_passing(&make_passing(9992, "D0000C03", 11_000_000)).is_empty());
    assert!(engine.process_passing(&make_passing(1001, "UNKNOWN", 11_000_000)).is_empty());
    assert!(engine.process_passing(&make_passing(7777, "D0000C01", 11_000_000)).is_empty());
    let mut no_decoder = make_passing(1001, "D0000C01", 11_000_000);
    no_decoder.decoder_id = None;
    assert!(engine.process_passing(&no_decoder).is_empty());
    assert!(matches!(engine.phase(), RacePhase::Racing { gate_drop_time_us: 10_000_000, .. }));
}

#[test]
fn test_stage_while_staged_or_racing_is_refused() {
    let mut engine = staged_engine();
    assert_eq!(engine.stage_moto("moto-2".into(), "X".into(), "moto1".into(), vec![]), None);
    engine.process_passing(&make_passing(9992, "D0000C01", 10_000_000));
    assert_eq!(engine.stage_moto("moto-2".into(), "X".into(), "moto1".into(), vec![]), None);
    match engine.phase() {
        RacePhase::Racing { moto_id, .. } => assert_eq!(moto_id, "moto-1"),
        other => panic!("unexpected phase {:?}", other),
    }
}

#[test]
fn test_restage_after_finish_starts_places_at_one() {
    let mut engine = two_rider_engine();
    engine.process_passing(&make_passing(9992, "D0000C01", 10_000_000));
    engine.process_passing(&make_passing(1001, "D0000C03", 20_000_000));
    engine.process_passing(&make_passing(1002, "D0000C03", 21_000_000));
    assert!(matches!(engine.phase(), RacePhase::Finished { .. }));

    let event = engine.stage_moto(
        "M2".into(),
        "Expert".into(),
        "main".into(),
        vec![staged("R3", "Cy", "C", "3", 1003, 1)],
    );
    assert!(event.is_some());
    engine.process_passing(&make_passing(9995, "D0000C01", 30_000_000));
    let events = engine.process_passing(&make_passing(1003, "D0000C03", 35_000_000));
    assert!(events
        .iter()
        .any(|e| matches!(e, RaceEvent::RiderFinished { finish_position: 1, elapsed_us: 5_000_000, .. })));
    assert!(events.iter().any(|e| matches!(e, RaceEvent::RaceFinished { .. })));
}

#[test]
fn test_backtracking_is_discarded() {
    let mut engine = staged_engine();
    engine.process_passing(&make_passing(9992, "D0000C01", 10_000_000));
    engine.process_passing(&make_passing(1001, "D0000C02", 15_000_000));
    let before = engine.state_snapshot();
    let events = engine.process_passing(&make_passing(1001, "D0000C01", 16_000_000));
    assert!(events.is_empty());
    assert_eq!(engine.state_snapshot(), before);

    let events = engine.process_passing(&make_passing(1001, "D0000C02", 17_000_000));
    assert_eq!(events.len(), 2);
    assert!(matches!(events[0], RaceEvent::SplitTime { elapsed_us: 7_000_000, is_finish: false, .. }));
}

#[test]
fn test_second_finish_crossing_is_discarded() {
    let mut engine = staged_engine();
    engine.process_passing(&make_passing(9992, "D0000C01", 10_000_000));
    let events = engine.process_passing(&make_passing(1001, "D0000C03", 20_000_000));
    assert_eq!(events.len(), 3);
    let before = engine.state_snapshot();
    let events = engine.process_passing(&make_passing(1001, "D0000C03", 25_000_000));
    assert!(events.is_empty());
    assert_eq!(engine.state_snapshot(), before);
}

#[test]
fn test_elapsed_saturates_before_gate_drop() {
    let mut engine = staged_engine();
    engine.process_passing(&make_passing(9992, "D0000C01", 10_000_000));
    let events = engine.process_passing(&make_passing(1001, "D0000C01", 9_000_000));
    assert!(matches!(
        events[0],
        RaceEvent::SplitTime { elapsed_us: 0, position: 1, gap_to_leader_us: Some(0), .. }
    ));
}

#[test]
fn test_split_positions_and_gaps() {
    let mut engine = staged_engine();
    engine.process_passing(&make_passing(9992, "D0000C01", 10_000_000));
    let events = engine.process_passing(&make_passing(1002, "D0000C01", 11_000_000));
    assert_eq!(
        events[0],
        RaceEvent::SplitTime {
            moto_id: "moto-1".into(),
            rider_id: "rider-2".into(),
            loop_name: "Start Hill".into(),
            is_finish: false,
            elapsed_us: 1_000_000,
            position: 1,
            gap_to_leader_us: Some(0),
        }
    );
    let events = engine.process_passing(&make_passing(1001, "D0000C01", 11_200_000));
    assert_eq!(
        events[0],
        RaceEvent::SplitTime {
            moto_id: "moto-1".into(),
            rider_id: "rider-1".into(),
            loop_name: "Start Hill".into(),
            is_finish: false,
            elapsed_us: 1_200_000,
            position: 2,
            gap_to_leader_us: Some(200_000),
        }
    );
    let events = engine.process_passing(&make_passing(1001, "D0000C02", 15_000_000));
    if let RaceEvent::PositionsUpdate { positions, .. } = &events[1] {
        let ids: Vec<&str> = positions.iter().map(|p| p.rider_id.as_str()).collect();
        assert_eq!(ids, vec!["rider-1", "rider-2", "rider-3"]);
        let places: Vec<u32> = positions.iter().map(|p| p.position).collect();
        assert_eq!(places, vec![1, 2, 3]);
        assert_eq!(positions[0].gap_to_leader_us, None);
        assert_eq!(positions[1].gap_to_leader_us, Some(1_000_000));
        assert_eq!(positions[2].gap_to_leader_us, None);
    } else {
        panic!("Expected PositionsUpdate");
    }
}

#[test]
fn test_snapshot_counts_after_finish() {
    let mut engine = staged_engine();
    engine.process_passing(&make_passing(9992, "D0000C01", 10_000_000));
    engine.process_passing(&make_passing(1003, "D0000C03", 20_000_000));
    if let RaceEvent::StateSnapshot { phase, finished_count, total_riders, gate_drop_time_us, positions, .. } =
        engine.state_snapshot()
    {
        assert_eq!(phase, "racing");
        assert_eq!(finished_count, 1);
        assert_eq!(total_riders, 3);
        assert_eq!(gate_drop_time_us, Some(10_000_000));
        assert_eq!(positions[0].rider_id, "rider-3");
    } else {
        panic!("Expected StateSnapshot");
    }
    engine.reset();
    if let RaceEvent::StateSnapshot { phase, moto_id, riders, total_riders, .. } = engine.state_snapshot() {
        assert_eq!(phase, "idle");
        assert_eq!(moto_id, None);
        assert!(riders.is_empty());
        assert_eq!(total_riders, 0);
    } else {
        panic!("Expected StateSnapshot");
    }
}

#[test]
fn test_duplicate_transponder_takes_earlier_place() {
    let mut engine = RaceEngine::new();
    engine.set_track(test_track());
    engine.stage_moto(
        "M".into(),
        "C".into(),
        "moto1".into(),
        vec![
            staged("first", "F", "F", "1", 1001, 1),
            staged("other", "O", "O", "2", 1002, 2),
            staged("second", "S", "S", "3", 1001, 3),
        ],
    );
    if let RaceEvent::StateSnapshot { riders, total_riders, .. } = engine.state_snapshot() {
        assert_eq!(total_riders, 2);
        assert_eq!(riders[0].rider_id, "second");
        assert_eq!(riders[1].rider_id, "other");
    } else {
        panic!("Expected StateSnapshot");
    }
}

#[test]
fn test_phase_names() {
    assert_eq!(RacePhase::Idle.name(), "idle");
    let mut engine = staged_engine();
    assert_eq!(engine.phase().name(), "staged");
    engine.process_passing(&make_passing(9992, "D0000C01", 10_000_000));
    assert_eq!(engine.phase().name(), "racing");
    engine.force_finish();
    assert_eq!(engine.phase().name(), "finished");
}
