use p3_timing::client::{
    classify_flush, trim_pending_if_needed, FlushOutcome, IngestEvent, PendingQueue,
};
use p3_timing::contracts::{
    build_idempotency_key, build_race_control_subject, build_race_event_envelope_v1_from_raw,
    build_race_events_subject, build_raw_ingest_envelope_v1, build_raw_ingest_subject,
    message_type_from_message, race_event_envelope_v1_from_raw, EventId, EventIdContext,
    RaceEventPayloadV1, RawIngestEnvelopeV1, TrackIngestBatchRequest, TrackIngestBatchResponse,
    TrackIngestEvent, RACE_EVENTS_ENVELOPE_CONTRACT_VERSION_V1,
    RAW_INGEST_ENVELOPE_CONTRACT_VERSION_V1, TRACK_INGEST_CONTRACT_VERSION_V2,
};
use p3_timing::ingest::{
    is_blank, is_white_space, same_text, tally, validate_batch, validate_event, ApiError,
    PublishOutcome,
};
use p3_timing::live::{
    map_decoder_event_payload, map_decoder_snapshot_rows, DecoderSnapshotRow, LiveSeq,
};
use p3_timing::parser::messages::{Message, PassingMessage, StatusMessage, VersionMessage};
use p3_timing::projection::{
    classify_insert, projection_key, projection_step, status_update, DecoderStatusUpdate,
    ProcessOutcome,
};
use p3_timing::simulator::DecoderState;
use p3_timing::text::{
    decimal_width, format_decimal, format_hex_upper, push_decimal_padded,
};

fn status(decoder_id: Option<&str>) -> Message {
    Message::Status(StatusMessage {
        noise: 55,
        gps_status: 1,
        temperature: -180,
        satellites: 10,
        decoder_id: decoder_id.map(|s| s.to_string()),
    })
}

fn passing() -> Message {
    Message::Passing(PassingMessage {
        passing_number: 1,
        transponder_id: 1001,
        rtc_time_us: 123_456,
        utc_time_us: None,
        strength: Some(100),
        hits: Some(20),
        transponder_string: Some("FL-01001".to_string()),
        flags: 0,
        decoder_id: Some("D1000C00".to_string()),
    })
}

fn context(seq: u64) -> EventIdContext {
    EventIdContext { client_id: "client-1".into(), boot_id: "boot-7".into(), seq }
}

fn event(seq: u64, message_type: &str, payload: Message) -> TrackIngestEvent {
    TrackIngestEvent {
        event_id: EventId(0x67e5504410b1426f9247bb680e5fe0c8),
        track_id: "track-1".into(),
        event_id_context: context(seq),
        captured_at_us: 10 + seq,
        message_type: message_type.into(),
        payload,
    }
}

fn batch(events: Vec<TrackIngestEvent>) -> TrackIngestBatchRequest {
    TrackIngestBatchRequest {
        contract_version: "track_ingest.v2".into(),
        track_id: "track-1".into(),
        events,
    }
}

fn bad_request(text: &str) -> Result<(), ApiError> {
    Err(ApiError::BadRequest(text.to_string()))
}

#[test]
fn test_message_type_from_message() {
    assert_eq!(message_type_from_message(&passing()), "PASSING");
    assert_eq!(message_type_from_message(&status(None)), "STATUS");
    let version = Message::Version(VersionMessage {
        decoder_id: "0011223344556677".into(),
        description: "d".into(),
        version: "v".into(),
        build: None,
    });
    assert_eq!(message_type_from_message(&version), "VERSION");
}

#[test]
fn test_build_idempotency_key() {
    assert_eq!(build_idempotency_key("track-1", &context(42)), "track-1:client-1:boot-7:42");
    assert_eq!(build_idempotency_key("t", &context(0)), "t:client-1:boot-7:0");
    assert_eq!(
        build_idempotency_key("", &context(u64::MAX)),
        ":client-1:boot-7:18446744073709551615"
    );
    let odd = EventIdContext { client_id: "a:b".into(), boot_id: "".into(), seq: 1000 };
    assert_eq!(build_idempotency_key("x", &odd), "x:a:b::1000");
}

#[test]
fn test_subjects() {
    assert_eq!(build_raw_ingest_subject("track-1"), "raw.track-1");
    assert_eq!(build_race_events_subject("track-1"), "events.track-1");
    assert_eq!(build_race_control_subject("track-1"), "control.track-1");
    assert_eq!(build_raw_ingest_subject(""), "raw.");
}

#[test]
fn test_contract_versions() {
    assert_eq!(TRACK_INGEST_CONTRACT_VERSION_V2, "track_ingest.v2");
    assert_eq!(RAW_INGEST_ENVELOPE_CONTRACT_VERSION_V1, "raw_ingest_envelope.v1");
    assert_eq!(RACE_EVENTS_ENVELOPE_CONTRACT_VERSION_V1, "race_events_envelope.v1");
}

#[test]
fn test_event_id_text_matches_uuid() {
    let value = 0x67e5504410b1426f9247bb680e5fe0c8u128;
    assert_eq!(EventId(value).to_text(), "67e55044-10b1-426f-9247-bb680e5fe0c8");
    assert_eq!(EventId(0).to_text(), "00000000-0000-0000-0000-000000000000");
    assert_eq!(EventId(u128::MAX).to_text(), "ffffffff-ffff-ffff-ffff-ffffffffffff");
    assert_eq!(
        EventId(0x0123456789abcdef0123456789abcdef).to_text(),
        "01234567-89ab-cdef-0123-456789abcdef"
    );
    assert_eq!(EventId(1).to_text(), "00000000-0000-0000-0000-000000000001");
    assert_eq!(
        EventId(value).to_text(),
        uuid::Uuid::parse_str("67e55044-10b1-426f-9247-bb680e5fe0c8").unwrap().to_string()
    );
}

#[test]
fn test_event_id_random_is_version_four() {
    let a = EventId::new_random();
    let b = EventId::new_random();
    assert_ne!(a, b);
    for id in [a, b] {
        assert_eq!((id.0 >> 76) & 0xF, 4);
        assert_eq!((id.0 >> 62) & 0x3, 2);
        assert_eq!(id.to_text().len(), 36);
        assert_eq!(uuid::Uuid::from_u128(id.0).get_version_num(), 4);
    }
}

#[test]
fn test_build_raw_ingest_envelope() {
    let e = event(3, "STATUS", status(Some("D1000C00")));
    let envelope = build_raw_ingest_envelope_v1(&e, 999);
    assert_eq!(
        envelope,
        RawIngestEnvelopeV1 {
            event_id: e.event_id,
            contract_version: "raw_ingest_envelope.v1".into(),
            track_id: "track-1".into(),
            event_id_context: context(3),
            captured_at_us: 13,
            ingested_at_us: 999,
            message_type: "STATUS".into(),
            payload: status(Some("D1000C00")),
        }
    );
}

#[test]
fn test_build_race_event_envelope_from_raw() {
    let raw = build_raw_ingest_envelope_v1(&event(3, "PASSING", passing()), 999);
    let fixed = race_event_envelope_v1_from_raw(EventId(77), &raw);
    assert_eq!(fixed.event_id, EventId(77));
    assert_eq!(fixed.contract_version, "race_events_envelope.v1");
    assert_eq!(fixed.track_id, "track-1");
    assert_eq!(fixed.source_event_id, raw.event_id);
    assert_eq!(fixed.ts_us, 13);
    assert_eq!(fixed.payload, RaceEventPayloadV1::DecoderMessage { message: passing() });

    let minted = build_race_event_envelope_v1_from_raw(&raw);
    assert_ne!(minted.event_id, raw.event_id);
    assert_eq!(minted.source_event_id, raw.event_id);
    assert_eq!(minted.ts_us, raw.captured_at_us);
    assert_eq!(minted.payload, fixed.payload);
    assert_eq!((minted.event_id.0 >> 76) & 0xF, 4);
}

#[test]
fn test_validate_batch_accepts() {
    assert_eq!(validate_batch(&batch(vec![])), Ok(()));
    assert_eq!(
        validate_batch(&batch(vec![
            event(1, "STATUS", status(None)),
            event(2, "PASSING", passing()),
        ])),
        Ok(())
    );
}

#[test]
fn test_validate_batch_rejections() {
    let mut wrong_version = batch(vec![]);
    wrong_version.contract_version = "track_ingest.v1".into();
    assert_eq!(
        validate_batch(&wrong_version),
        bad_request("Unsupported contract_version: track_ingest.v1")
    );
    let mut no_track = batch(vec![]);
    no_track.track_id = " \t\u{00a0}".into();
    assert_eq!(validate_batch(&no_track), bad_request("track_id is required"));
    wrong_version.track_id = "".into();
    assert_eq!(
        validate_batch(&wrong_version),
        bad_request("Unsupported contract_version: track_ingest.v1")
    );

    let mut e = event(1, "STATUS", status(None));
    e.track_id = "  ".into();
    assert_eq!(validate_batch(&batch(vec![e])), bad_request("event.track_id is required"));
    let mut e = event(1, "STATUS", status(None));
    e.track_id = "track-2".into();
    assert_eq!(
        validate_batch(&batch(vec![e])),
        bad_request("event.track_id must match request track_id")
    );
    let e = event(1, "", status(None));
    assert_eq!(validate_batch(&batch(vec![e])), bad_request("event.message_type is required"));
    let e = event(1, "PASSING", status(None));
    assert_eq!(
        validate_batch(&batch(vec![e])),
        bad_request("event.message_type must match payload type: expected STATUS")
    );
    let e = event(1, "status", passing());
    assert_eq!(
        validate_batch(&batch(vec![e])),
        bad_request("event.message_type must match payload type: expected PASSING")
    );
    let mut e = event(1, "STATUS", status(None));
    e.event_id_context.client_id = "".into();
    assert_eq!(
        validate_batch(&batch(vec![e])),
        bad_request("event.event_id_context.client_id is required")
    );
    let mut e = event(1, "STATUS", status(None));
    e.event_id_context.boot_id = "\n".into();
    assert_eq!(
        validate_batch(&batch(vec![e])),
        bad_request("event.event_id_context.boot_id is required")
    );
}

#[test]
fn test_validate_batch_first_fault_decides() {
    let good = event(1, "STATUS", status(None));
    let mut second = event(2, "STATUS", status(None));
    second.event_id_context.boot_id = "".into();
    let mut third = event(3, "STATUS", status(None));
    third.track_id = "".into();
    assert_eq!(
        validate_batch(&batch(vec![good.clone(), second.clone(), third.clone()])),
        bad_request("event.event_id_context.boot_id is required")
    );
    assert_eq!(
        validate_batch(&batch(vec![good.clone(), third, second])),
        bad_request("event.track_id is required")
    );
    let mut many = event(4, "", status(None));
    many.event_id_context.client_id = "".into();
    many.event_id_context.boot_id = "".into();
    assert_eq!(
        validate_event(&many, &"track-1".to_string()),
        bad_request("event.message_type is required")
    );
    assert_eq!(validate_event(&good, &"track-1".to_string()), Ok(()));
}

#[test]
fn test_blank_and_white_space() {
    assert!(is_blank(""));
    assert!(is_blank("   "));
    assert!(is_blank(" \t\r\n\u{000b}\u{000c}\u{0085}\u{00a0}\u{1680}\u{2000}\u{200a}\u{2028}\u{2029}\u{202f}\u{205f}\u{3000}"));
    assert!(!is_blank(" a "));
    assert!(!is_blank("\u{200b}"));
    assert!(!is_blank("\u{001f}"));
    for code in 0u32..0x3100 {
        if let Some(c) = char::from_u32(code) {
            assert_eq!(is_white_space(c), c.is_whitespace(), "U+{:04X}", code);
        }
    }
    assert!(!is_white_space('\u{10FFFF}'));
    assert!(same_text("abc", "abc"));
    assert!(!same_text("abc", "abd"));
    assert!(!same_text("abc", "ab"));
    assert!(same_text("", ""));
}

#[test]
fn test_tally() {
    let new = PublishOutcome { duplicate: false };
    let dup = PublishOutcome { duplicate: true };
    assert_eq!(tally(&[]), TrackIngestBatchResponse { accepted: 0, duplicates: 0 });
    assert_eq!(tally(&[new, new]), TrackIngestBatchResponse { accepted: 2, duplicates: 0 });
    assert_eq!(tally(&[dup, dup]), TrackIngestBatchResponse { accepted: 0, duplicates: 2 });
    assert_eq!(tally(&[new, dup, new, dup, dup]), TrackIngestBatchResponse { accepted: 2, duplicates: 3 });
}

#[test]
fn test_scenario_duplicate_ingest_within_dedupe_window() {
    let events = vec![
        event(1, "STATUS", status(None)),
        event(2, "PASSING", passing()),
        event(3, "STATUS", status(Some("D1000C00"))),
    ];
    let request = batch(events);
    assert_eq!(validate_batch(&request), Ok(()));
    let mut log: Vec<String> = Vec::new();
    let mut publish = |request: &TrackIngestBatchRequest| -> TrackIngestBatchResponse {
        let mut outcomes = Vec::new();
        for e in &request.events {
            let key = build_idempotency_key(&e.track_id, &e.event_id_context);
            let duplicate = log.contains(&key);
            if !duplicate {
                log.push(key);
            }
            outcomes.push(PublishOutcome { duplicate });
        }
        tally(&outcomes)
    };
    let first = publish(&request);
    let second = publish(&request);
    assert_eq!(first, TrackIngestBatchResponse { accepted: 3, duplicates: 0 });
    assert_eq!(second, TrackIngestBatchResponse { accepted: 0, duplicates: 3 });
    assert_eq!(first.accepted + second.accepted, request.events.len());
    assert_eq!(second.duplicates, first.accepted);
    assert_eq!(
        log,
        vec![
            "track-1:client-1:boot-7:1".to_string(),
            "track-1:client-1:boot-7:2".to_string(),
            "track-1:client-1:boot-7:3".to_string(),
        ]
    );
}

#[test]
fn live_seq_is_monotonic() {
    let mut seq = LiveSeq::default();
    assert_eq!(seq.next(), 1);
    assert_eq!(seq.next(), 2);
    assert_eq!(seq.next(), 3);
}

#[test]
fn map_decoder_snapshot_rows_preserves_order_and_fields() {
    let payload = map_decoder_snapshot_rows(vec![
        DecoderSnapshotRow {
            loop_id: "loop-1".to_string(),
            loop_name: "Start".to_string(),
            loop_position: 1,
            decoder_id: "D1000C00".to_string(),
            noise: Some(20),
            temperature: Some(170),
            gps_status: Some(1),
            satellites: Some(9),
            last_seen: Some("2026-01-01T00:00:00".to_string()),
        },
        DecoderSnapshotRow {
            loop_id: "loop-2".to_string(),
            loop_name: "Finish".to_string(),
            loop_position: 2,
            decoder_id: "D2000C00".to_string(),
            noise: None,
            temperature: None,
            gps_status: None,
            satellites: None,
            last_seen: None,
        },
    ]);

    assert_eq!(payload.rows.len(), 2);
    assert_eq!(payload.rows[0].loop_id, "loop-1");
    assert_eq!(payload.rows[0].decoder_id, "D1000C00");
    assert_eq!(payload.rows[1].loop_id, "loop-2");
    assert!(payload.rows[1].noise.is_none());
    assert_eq!(payload.rows[0].loop_name, "Start");
    assert_eq!(payload.rows[0].loop_position, 1);
    assert_eq!(payload.rows[0].noise, Some(20));
    assert_eq!(payload.rows[0].temperature, Some(170));
    assert_eq!(payload.rows[0].gps_status, Some(1));
    assert_eq!(payload.rows[0].satellites, Some(9));
    assert_eq!(payload.rows[0].last_seen, Some("2026-01-01T00:00:00".to_string()));
    assert_eq!(payload.rows[1].last_seen, None);
}

#[test]
fn map_decoder_event_payload_maps_decoder_message() {
    let source_event_id = EventId::new_random();
    let message = Message::Status(StatusMessage {
        noise: 55,
        gps_status: 1,
        temperature: 180,
        satellites: 10,
        decoder_id: Some("D1000C00".to_string()),
    });

    let derived = p3_timing::contracts::RaceEventEnvelopeV1 {
        event_id: EventId::new_random(),
        contract_version: "race_events_envelope.v1".to_string(),
        track_id: "track-1".to_string(),
        source_event_id,
        ts_us: 123,
        payload: RaceEventPayloadV1::DecoderMessage { message: message.clone() },
    };

    let mapped = map_decoder_event_payload(&derived).expect("expected decoder payload");
    assert_eq!(mapped.message, message);
    assert_eq!(mapped.source_event_id, source_event_id);

    let other = p3_timing::contracts::RaceEventEnvelopeV1 {
        payload: RaceEventPayloadV1::RaceReset,
        ..derived
    };
    assert_eq!(map_decoder_event_payload(&other), None);
}

#[test]
fn test_classify_flush() {
    assert_eq!(classify_flush(None), FlushOutcome::Failed);
    assert_eq!(classify_flush(Some(200)), FlushOutcome::Delivered);
    assert_eq!(classify_flush(Some(204)), FlushOutcome::Delivered);
    assert_eq!(classify_flush(Some(299)), FlushOutcome::Delivered);
    assert_eq!(classify_flush(Some(199)), FlushOutcome::Failed);
    assert_eq!(classify_flush(Some(300)), FlushOutcome::Failed);
    assert_eq!(classify_flush(Some(399)), FlushOutcome::Failed);
    assert_eq!(classify_flush(Some(400)), FlushOutcome::Rejected);
    assert_eq!(classify_flush(Some(499)), FlushOutcome::Rejected);
    assert_eq!(classify_flush(Some(500)), FlushOutcome::Failed);
    assert_eq!(classify_flush(Some(503)), FlushOutcome::Failed);
}

fn pending_event(seq: u64) -> IngestEvent {
    IngestEvent { seq, captured_at_us: 1000 + seq, message: status(None) }
}

#[test]
fn test_trim_pending_drops_oldest() {
    let mut pending: Vec<IngestEvent> = (1..=5).map(pending_event).collect();
    assert_eq!(trim_pending_if_needed(5, &mut pending), 0);
    assert_eq!(pending.len(), 5);
    assert_eq!(trim_pending_if_needed(7, &mut pending), 0);
    assert_eq!(trim_pending_if_needed(3, &mut pending), 2);
    let seqs: Vec<u64> = pending.iter().map(|e| e.seq).collect();
    assert_eq!(seqs, vec![3, 4, 5]);
    assert_eq!(trim_pending_if_needed(0, &mut pending), 3);
    assert!(pending.is_empty());
    assert_eq!(trim_pending_if_needed(0, &mut pending), 0);
}

#[test]
fn test_pending_queue_numbers_and_batches() {
    let mut queue = PendingQueue::new();
    assert!(queue.is_empty());
    assert!(!queue.push(100, status(None), 3));
    assert!(!queue.push(101, passing(), 3));
    assert!(queue.push(102, status(None), 3));
    assert_eq!(queue.len(), 3);
    let batch = queue.take_batch();
    assert!(queue.is_empty());
    assert_eq!(
        batch,
        vec![
            IngestEvent { seq: 1, captured_at_us: 100, message: status(None) },
            IngestEvent { seq: 2, captured_at_us: 101, message: passing() },
            IngestEvent { seq: 3, captured_at_us: 102, message: status(None) },
        ]
    );
    assert!(queue.push(103, status(None), 1));
    queue.settle(batch, FlushOutcome::Failed);
    let seqs: Vec<u64> = queue.take_batch().iter().map(|e| e.seq).collect();
    assert_eq!(seqs, vec![1, 2, 3, 4]);

    queue.push(104, status(None), 10);
    let batch = queue.take_batch();
    queue.push(105, status(None), 10);
    queue.settle(batch, FlushOutcome::Delivered);
    let batch = queue.take_batch();
    assert_eq!(batch.iter().map(|e| e.seq).collect::<Vec<_>>(), vec![6]);
    queue.settle(batch, FlushOutcome::Rejected);
    assert!(queue.is_empty());
    for i in 0..6 {
        queue.push(200 + i, status(None), 10);
    }
    assert_eq!(queue.trim(4), 2);
    assert_eq!(queue.trim(4), 0);
    assert_eq!(queue.take_batch().iter().map(|e| e.seq).collect::<Vec<_>>(), vec![9, 10, 11, 12]);
}

#[test]
fn test_projection_of_status() {
    let e = event(9, "STATUS", status(Some("D1000C00")));
    let envelope = build_raw_ingest_envelope_v1(&e, 5);
    assert_eq!(projection_key(&envelope), "track-1:client-1:boot-7:9");
    assert_eq!(
        status_update(&envelope),
        Some(DecoderStatusUpdate {
            decoder_id: "D1000C00".into(),
            noise: 55,
            temperature: -180,
            gps_status: 1,
            satellites: 10,
        })
    );
    assert_eq!(classify_insert(0), ProcessOutcome::Duplicate);
    assert_eq!(classify_insert(1), ProcessOutcome::Applied);
    assert_eq!(projection_step(0, &envelope), (ProcessOutcome::Duplicate, None));
    assert_eq!(projection_step(1, &envelope), (ProcessOutcome::Applied, status_update(&envelope)));

    let without_id = build_raw_ingest_envelope_v1(&event(9, "STATUS", status(None)), 5);
    assert_eq!(status_update(&without_id), None);
    assert_eq!(projection_step(1, &without_id), (ProcessOutcome::Applied, None));
    let passing_envelope = build_raw_ingest_envelope_v1(&event(9, "PASSING", passing()), 5);
    assert_eq!(status_update(&passing_envelope), None);
    assert_eq!(projection_step(3, &passing_envelope), (ProcessOutcome::Applied, None));
}

#[test]
fn test_decoder_state() {
    let mut state = DecoderState::new(0x11223344);
    assert_eq!(
        state,
        DecoderState {
            decoder_id: 0x11223344,
            passing_number: 0,
            noise_level: 53,
            temperature_celsius_x10: 16,
            gps_has_fix: true,
            gps_satellites: 0,
        }
    );
    assert_eq!(state.next_passing_number(), 1);
    assert_eq!(state.next_passing_number(), 2);
    assert_eq!(state.passing_number, 2);
    assert_eq!(state.decoder_id, 0x11223344);
    assert_eq!(DecoderState::default().decoder_id, 0x000C00D0);
}

#[test]
fn test_text_numbers() {
    assert_eq!(format_decimal(0), "0");
    assert_eq!(format_decimal(9), "9");
    assert_eq!(format_decimal(10), "10");
    assert_eq!(format_decimal(1234567890), "1234567890");
    assert_eq!(format_decimal(u64::MAX), "18446744073709551615");
    assert_eq!(decimal_width(0), 1);
    assert_eq!(decimal_width(99), 2);
    assert_eq!(decimal_width(100), 3);
    assert_eq!(decimal_width(u64::MAX), 20);
    let mut s = String::from("x");
    push_decimal_padded(&mut s, 7, 3);
    push_decimal_padded(&mut s, 1234, 2);
    push_decimal_padded(&mut s, 0, 0);
    push_decimal_padded(&mut s, 0, 1);
    assert_eq!(s, "x007123400");
    assert_eq!(format_hex_upper(&[]), "");
    assert_eq!(format_hex_upper(&[0x00, 0x0F, 0xA0, 0xFF, 0x9C]), "000FA0FF9C");
}
