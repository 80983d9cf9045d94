use p3_timing::contracts::{
    EventId, EventIdContext, FinishResultV1, LoopConfigV1, RaceControlIntentEnvelopeV1,
    RaceControlIntentV1, RaceEventPayloadV1, RawIngestEnvelopeV1, RiderPositionV1, StagedRiderV1,
    TrackConfigV1,
};
use p3_timing::engine::model::RacePhase;
use p3_timing::engine::race_event::{
    FinishResult, LoopConfig, RaceEvent, RiderPosition, StagedRider, TrackConfig,
};
use p3_timing::engine::state::RaceEngine;
use p3_timing::parser::messages::{Message, PassingMessage, StatusMessage};
use p3_timing::worker::{
    control_publications, decoder_message_publication, map_domain_event_to_payload,
    map_loop_config, map_position_from_domain, map_result_from_domain, map_staged_rider,
    map_staged_rider_from_domain, map_staged_rider_to_contract, map_staged_riders,
    map_track_config, map_track_config_to_contract, passing_publications, publication,
    should_acknowledge, Handling,
};
use p3_timing::contracts::{build_control_intent_envelope, control_intent_envelope};
use p3_timing::engine::processor::has_distinct_decoders;

const SOURCE: EventId = EventId(0x67e5504410b1426f9247bb680e5fe0c8);
const SOURCE_TEXT: &str = "67e55044-10b1-426f-9247-bb680e5fe0c8";

fn loop_v1(loop_id: &str, name: &str, decoder_id: &str, position: u32, is_finish: bool) -> LoopConfigV1 {
    LoopConfigV1 {
        loop_id: loop_id.into(),
        name: name.into(),
        decoder_id: decoder_id.into(),
        position,
        is_start: position == 0,
        is_finish,
    }
}

fn track_v1() -> TrackConfigV1 {
    TrackConfigV1 {
        track_id: "track-1".into(),
        name: "Test BMX Track".into(),
        gate_beacon_id: 9992,
        loops: vec![
            loop_v1("loop-start", "Start Hill", "D0000C01", 0, false),
            loop_v1("loop-finish", "Finish", "D0000C03", 2, true),
        ],
    }
}

fn rider_v1(rider_id: &str, transponder_id: u32, lane: u32) -> StagedRiderV1 {
    StagedRiderV1 {
        rider_id: rider_id.into(),
        first_name: "F".into(),
        last_name: "L".into(),
        plate_number: lane.to_string(),
        transponder_id,
        lane,
    }
}

fn rider(rider_id: &str, transponder_id: u32, lane: u32) -> StagedRider {
    StagedRider {
        rider_id: rider_id.into(),
        first_name: "F".into(),
        last_name: "L".into(),
        plate_number: lane.to_string(),
        transponder_id,
        lane,
    }
}

fn control(intent: RaceControlIntentV1) -> RaceControlIntentEnvelopeV1 {
    RaceControlIntentEnvelopeV1 {
        event_id: SOURCE,
        contract_version: "race_control_intent_envelope.v1".into(),
        track_id: "track-1".into(),
        ts_us: 5_000,
        intent,
    }
}

fn stage(moto_id: &str) -> RaceControlIntentV1 {
    RaceControlIntentV1::Stage {
        track_config: track_v1(),
        moto_id: moto_id.into(),
        class_name: "Expert".into(),
        round_type: "main".into(),
        riders: vec![rider_v1("R1", 1001, 1), rider_v1("R2", 1002, 2)],
    }
}

fn raw(payload: Message, captured_at_us: u64) -> RawIngestEnvelopeV1 {
    RawIngestEnvelopeV1 {
        event_id: SOURCE,
        contract_version: "raw_ingest_envelope.v1".into(),
        track_id: "track-1".into(),
        event_id_context: EventIdContext { client_id: "c".into(), boot_id: "b".into(), seq: 1 },
        captured_at_us,
        ingested_at_us: captured_at_us + 1,
        message_type: "PASSING".into(),
        payload,
    }
}

fn passing(transponder_id: u32, decoder_id: &str, rtc_time_us: u64) -> Message {
    Message::Passing(PassingMessage {
        passing_number: 1,
        transponder_id,
        rtc_time_us,
        utc_time_us: None,
        strength: None,
        hits: None,
        transponder_string: None,
        flags: 0,
        decoder_id: Some(decoder_id.to_string()),
    })
}

#[test]
fn test_map_riders_positions_results() {
    assert_eq!(map_staged_rider(rider_v1("R1", 1001, 3)), rider("R1", 1001, 3));
    assert_eq!(map_staged_rider_from_domain(rider("R1", 1001, 3)), rider_v1("R1", 1001, 3));
    assert_eq!(map_staged_rider_to_contract(&rider("R2", 7, 8)), rider_v1("R2", 7, 8));
    assert_eq!(
        map_staged_riders(&vec![rider_v1("a", 1, 1), rider_v1("b", 2, 2)]),
        vec![rider("a", 1, 1), rider("b", 2, 2)]
    );
    let position = RiderPosition {
        rider_id: "R1".into(),
        plate_number: "42".into(),
        first_name: "A".into(),
        last_name: "B".into(),
        lane: 3,
        position: 2,
        last_loop: Some("Corner".into()),
        elapsed_us: Some(5),
        gap_to_leader_us: Some(1),
        finished: true,
        dnf: false,
    };
    assert_eq!(
        map_position_from_domain(position),
        RiderPositionV1 {
            rider_id: "R1".into(),
            plate_number: "42".into(),
            first_name: "A".into(),
            last_name: "B".into(),
            lane: 3,
            position: 2,
            last_loop: Some("Corner".into()),
            elapsed_us: Some(5),
            gap_to_leader_us: Some(1),
            finished: true,
            dnf: false,
        }
    );
    let result = FinishResult {
        rider_id: "R1".into(),
        plate_number: "42".into(),
        first_name: "A".into(),
        last_name: "B".into(),
        position: 0,
        elapsed_us: None,
        gap_to_leader_us: None,
        dnf: true,
        dns: false,
    };
    assert_eq!(
        map_result_from_domain(result),
        FinishResultV1 {
            rider_id: "R1".into(),
            plate_number: "42".into(),
            first_name: "A".into(),
            last_name: "B".into(),
            position: 0,
            elapsed_us: None,
            gap_to_leader_us: None,
            dnf: true,
            dns: false,
        }
    );
}

#[test]
fn test_map_track_config_both_ways() {
    let domain = map_track_config(&track_v1());
    assert_eq!(
        domain,
        TrackConfig {
            track_id: "track-1".into(),
            name: "Test BMX Track".into(),
            gate_beacon_id: 9992,
            loops: vec![
                LoopConfig {
                    loop_id: "loop-start".into(),
                    name: "Start Hill".into(),
                    decoder_id: "D0000C01".into(),
                    position: 0,
                    is_start: true,
                    is_finish: false,
                },
                LoopConfig {
                    loop_id: "loop-finish".into(),
                    name: "Finish".into(),
                    decoder_id: "D0000C03".into(),
                    position: 2,
                    is_start: false,
                    is_finish: true,
                },
            ],
        }
    );
    assert_eq!(map_track_config_to_contract(&domain), track_v1());
    assert_eq!(map_loop_config(&track_v1().loops[1]), domain.loops[1].clone());
}

#[test]
fn test_map_domain_event_to_payload() {
    assert_eq!(map_domain_event_to_payload(RaceEvent::RaceReset), Some(RaceEventPayloadV1::RaceReset));
    assert_eq!(
        map_domain_event_to_payload(RaceEvent::GateDrop { moto_id: "M".into(), timestamp_us: 9 }),
        Some(RaceEventPayloadV1::GateDrop { moto_id: "M".into(), timestamp_us: 9 })
    );
    assert_eq!(
        map_domain_event_to_payload(RaceEvent::RaceStaged {
            moto_id: "M".into(),
            class_name: "C".into(),
            round_type: "main".into(),
            riders: vec![rider("a", 1, 1), rider("b", 2, 2)],
        }),
        Some(RaceEventPayloadV1::RaceStaged {
            moto_id: "M".into(),
            class_name: "C".into(),
            round_type: "main".into(),
            riders: vec![rider_v1("a", 1, 1), rider_v1("b", 2, 2)],
        })
    );
    assert_eq!(
        map_domain_event_to_payload(RaceEvent::SplitTime {
            moto_id: "M".into(),
            rider_id: "a".into(),
            loop_name: "Finish".into(),
            is_finish: true,
            elapsed_us: 10,
            position: 1,
            gap_to_leader_us: Some(0),
        }),
        Some(RaceEventPayloadV1::SplitTime {
            moto_id: "M".into(),
            rider_id: "a".into(),
            loop_name: "Finish".into(),
            is_finish: true,
            elapsed_us: 10,
            position: 1,
            gap_to_leader_us: Some(0),
        })
    );
    assert_eq!(
        map_domain_event_to_payload(RaceEvent::RiderFinished {
            moto_id: "M".into(),
            rider_id: "a".into(),
            finish_position: 1,
            elapsed_us: 10,
            gap_to_leader_us: None,
        }),
        Some(RaceEventPayloadV1::RiderFinished {
            moto_id: "M".into(),
            rider_id: "a".into(),
            finish_position: 1,
            elapsed_us: 10,
            gap_to_leader_us: None,
        })
    );
    assert_eq!(
        map_domain_event_to_payload(RaceEvent::PositionsUpdate { moto_id: "M".into(), positions: vec![] }),
        Some(RaceEventPayloadV1::PositionsUpdate { moto_id: "M".into(), positions: vec![] })
    );
    assert_eq!(
        map_domain_event_to_payload(RaceEvent::RaceFinished { moto_id: "M".into(), results: vec![] }),
        Some(RaceEventPayloadV1::RaceFinished { moto_id: "M".into(), results: vec![] })
    );
}

#[test]
fn test_publication_key_and_envelope() {
    let p = publication("track-1", SOURCE, 77, RaceEventPayloadV1::RaceReset, "control:0:race_reset");
    assert_eq!(p.msg_id, format!("track-1:{SOURCE_TEXT}:control:0:race_reset"));
    assert_eq!(p.envelope.contract_version, "race_events_envelope.v1");
    assert_eq!(p.envelope.track_id, "track-1");
    assert_eq!(p.envelope.source_event_id, SOURCE);
    assert_eq!(p.envelope.ts_us, 77);
    assert_eq!(p.envelope.payload, RaceEventPayloadV1::RaceReset);
    assert_ne!(p.envelope.event_id, SOURCE);
    let q = publication("track-1", SOURCE, 77, RaceEventPayloadV1::RaceReset, "control:0:race_reset");
    assert_eq!(q.msg_id, p.msg_id);
    assert_ne!(q.envelope.event_id, p.envelope.event_id);
}

#[test]
fn test_decoder_message_publication() {
    let message = Message::Status(StatusMessage {
        noise: 1,
        gps_status: 1,
        temperature: 1,
        satellites: 1,
        decoder_id: None,
    });
    let p = decoder_message_publication("track-9", &raw(message.clone(), 1234));
    assert_eq!(p.msg_id, format!("track-9:{SOURCE_TEXT}:decoder_message"));
    assert_eq!(p.envelope.ts_us, 1234);
    assert_eq!(p.envelope.source_event_id, SOURCE);
    assert_eq!(p.envelope.track_id, "track-9");
    assert_eq!(p.envelope.payload, RaceEventPayloadV1::DecoderMessage { message });
}

#[test]
fn test_control_stage_then_passings() {
    let mut engine = RaceEngine::new();
    let out = control_publications("track-1", &mut engine, &control(stage("M")));
    assert_eq!(out.len(), 2);
    assert_eq!(out[0].msg_id, format!("track-1:{SOURCE_TEXT}:control:0:race_staged"));
    assert_eq!(
        out[0].envelope.payload,
        RaceEventPayloadV1::RaceStaged {
            moto_id: "M".into(),
            class_name: "Expert".into(),
            round_type: "main".into(),
            riders: vec![rider_v1("R1", 1001, 1), rider_v1("R2", 1002, 2)],
        }
    );
    assert_eq!(out[1].msg_id, format!("track-1:{SOURCE_TEXT}:control:1:state_snapshot"));
    match &out[1].envelope.payload {
        RaceEventPayloadV1::StateSnapshot { phase, moto_id, total_riders, riders, .. } => {
            assert_eq!(phase, "staged");
            assert_eq!(moto_id, &Some("M".to_string()));
            assert_eq!(*total_riders, 2);
            assert_eq!(riders, &vec![rider_v1("R1", 1001, 1), rider_v1("R2", 1002, 2)]);
        }
        other => panic!("unexpected {:?}", other),
    }
    for p in &out {
        assert_eq!(p.envelope.ts_us, 5_000);
        assert_eq!(p.envelope.source_event_id, SOURCE);
        assert_eq!(p.envelope.track_id, "track-1");
    }

    let gate = raw(passing(9992, "D0000C01", 10_000_000), 111);
    let out = passing_publications("track-1", &mut engine, &gate);
    assert_eq!(out.len(), 1);
    assert_eq!(out[0].msg_id, format!("track-1:{SOURCE_TEXT}:passing:0"));
    assert_eq!(
        out[0].envelope.payload,
        RaceEventPayloadV1::GateDrop { moto_id: "M".into(), timestamp_us: 10_000_000 }
    );
    assert_eq!(out[0].envelope.ts_us, 111);

    let finish = raw(passing(1001, "D0000C03", 20_000_000), 222);
    let out = passing_publications("track-1", &mut engine, &finish);
    let keys: Vec<String> = out.iter().map(|p| p.msg_id.clone()).collect();
    assert_eq!(
        keys,
        vec![
            format!("track-1:{SOURCE_TEXT}:passing:0"),
            format!("track-1:{SOURCE_TEXT}:passing:1"),
            format!("track-1:{SOURCE_TEXT}:passing:2"),
        ]
    );
    assert!(matches!(out[0].envelope.payload, RaceEventPayloadV1::SplitTime { is_finish: true, position: 1, .. }));
    assert!(matches!(out[1].envelope.payload, RaceEventPayloadV1::RiderFinished { finish_position: 1, .. }));
    assert!(matches!(out[2].envelope.payload, RaceEventPayloadV1::PositionsUpdate { .. }));
    assert!(out.iter().all(|p| p.envelope.ts_us == 222));

    let status = raw(
        Message::Status(StatusMessage { noise: 1, gps_status: 1, temperature: 1, satellites: 1, decoder_id: None }),
        333,
    );
    assert!(passing_publications("track-1", &mut engine, &status).is_empty());
    assert!(matches!(engine.phase(), RacePhase::Racing { .. }));

    let out = control_publications("track-1", &mut engine, &control(stage("M2")));
    assert_eq!(out.len(), 1);
    assert_eq!(out[0].msg_id, format!("track-1:{SOURCE_TEXT}:control:0:state_snapshot"));

    let out = control_publications("track-1", &mut engine, &control(RaceControlIntentV1::ForceFinish));
    assert_eq!(out.len(), 2);
    assert_eq!(out[0].msg_id, format!("track-1:{SOURCE_TEXT}:control:0:race_finished"));
    match &out[0].envelope.payload {
        RaceEventPayloadV1::RaceFinished { moto_id, results } => {
            assert_eq!(moto_id, "M");
            assert_eq!(results.len(), 2);
            assert_eq!(results[0].rider_id, "R1");
            assert_eq!(results[0].position, 1);
            assert!(!results[0].dnf);
            assert_eq!(results[1].rider_id, "R2");
            assert!(results[1].dnf);
        }
        other => panic!("unexpected {:?}", other),
    }
    assert_eq!(out[1].msg_id, format!("track-1:{SOURCE_TEXT}:control:1:state_snapshot"));

    let out = control_publications("track-1", &mut engine, &control(RaceControlIntentV1::ForceFinish));
    assert_eq!(out.len(), 1);
    assert_eq!(out[0].msg_id, format!("track-1:{SOURCE_TEXT}:control:0:state_snapshot"));

    let out = control_publications("track-1", &mut engine, &control(RaceControlIntentV1::Reset));
    assert_eq!(out.len(), 2);
    assert_eq!(out[0].msg_id, format!("track-1:{SOURCE_TEXT}:control:0:race_reset"));
    assert_eq!(out[0].envelope.payload, RaceEventPayloadV1::RaceReset);
    match &out[1].envelope.payload {
        RaceEventPayloadV1::StateSnapshot { phase, total_riders, .. } => {
            assert_eq!(phase, "idle");
            assert_eq!(*total_riders, 0);
        }
        other => panic!("unexpected {:?}", other),
    }
}

#[test]
fn test_control_stage_same_moto_while_staged_is_announced_again() {
    let mut engine = RaceEngine::new();
    control_publications("track-1", &mut engine, &control(stage("M")));
    let out = control_publications("track-1", &mut engine, &control(stage("M")));
    assert_eq!(out.len(), 2);
    assert_eq!(out[0].msg_id, format!("track-1:{SOURCE_TEXT}:control:0:race_staged"));
    let out = control_publications("track-1", &mut engine, &control(stage("other")));
    assert_eq!(out.len(), 1);
    match engine.phase() {
        RacePhase::Staged { moto_id, .. } => assert_eq!(moto_id, "M"),
        other => panic!("unexpected {:?}", other),
    }
}

#[test]
fn test_should_acknowledge() {
    assert!(should_acknowledge(Handling::Poison));
    assert!(should_acknowledge(Handling::Done));
    assert!(!should_acknowledge(Handling::Failed));
}

#[test]
fn test_control_intent_envelope() {
    let envelope = control_intent_envelope(SOURCE, "track-1".into(), 42, RaceControlIntentV1::Reset);
    assert_eq!(envelope, control(RaceControlIntentV1::Reset).with_ts(42));
    let minted = build_control_intent_envelope("track-2".into(), 7, RaceControlIntentV1::ForceFinish);
    assert_eq!(minted.contract_version, "race_control_intent_envelope.v1");
    assert_eq!(minted.track_id, "track-2");
    assert_eq!(minted.ts_us, 7);
    assert_eq!(minted.intent, RaceControlIntentV1::ForceFinish);
    assert_eq!((minted.event_id.0 >> 76) & 0xF, 4);
}

trait WithTs {
    fn with_ts(self, ts_us: u64) -> Self;
}

impl WithTs for RaceControlIntentEnvelopeV1 {
    fn with_ts(mut self, ts_us: u64) -> Self {
        self.ts_us = ts_us;
        self
    }
}

#[test]
fn test_has_distinct_decoders() {
    let mut track = map_track_config(&track_v1());
    assert!(has_distinct_decoders(&track));
    track.loops[1].decoder_id = "D0000C01".into();
    assert!(!has_distinct_decoders(&track));
    track.loops.clear();
    assert!(has_distinct_decoders(&track));
}

#[test]
fn test_last_loop_of_a_decoder_is_taken() {
    let mut engine = RaceEngine::new();
    let mut track = track_v1();
    track.loops.push(loop_v1("loop-twin", "Twin", "D0000C01", 1, false));
    let intent = RaceControlIntentV1::Stage {
        track_config: track,
        moto_id: "M".into(),
        class_name: "C".into(),
        round_type: "moto1".into(),
        riders: vec![rider_v1("R1", 1001, 1), rider_v1("R2", 1002, 2)],
    };
    control_publications("track-1", &mut engine, &control(intent));
    passing_publications("track-1", &mut engine, &raw(passing(9992, "D0000C01", 10), 1));
    let out = passing_publications("track-1", &mut engine, &raw(passing(1001, "D0000C01", 25), 2));
    match &out[0].envelope.payload {
        RaceEventPayloadV1::SplitTime { loop_name, elapsed_us, .. } => {
            assert_eq!(loop_name, "Twin");
            assert_eq!(*elapsed_us, 15);
        }
        other => panic!("unexpected {:?}", other),
    }
}
