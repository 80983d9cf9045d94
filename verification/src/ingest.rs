//! The ingester's decisions: which batches are taken, and what is answered
//! once the durable log has acknowledged their events.
//!
//! The log suppresses duplicates by idempotency key alone; the answer to a
//! batch counts what the log reported for each event.

use vstd::prelude::*;
use vstd::string::{StrSliceExecFns, StringExecFns};
use crate::contracts::{
    idempotency_key,
    message_type_from_message,
    message_type_tag,
    TrackIngestBatchRequest,
    TrackIngestBatchResponse,
    TrackIngestEvent,
    TRACK_INGEST_CONTRACT_VERSION_V2,
};

verus! {

/// An error of the API: what was not found, what the caller got wrong, or
/// what failed on the server's side.
#[derive(Debug, Clone, PartialEq)]
pub enum ApiError {
    NotFound(String),
    BadRequest(String),
    Internal(String),
}

/// What the durable log reported for one published event.
#[derive(Debug, Clone, Copy, PartialEq, Eq, Structural)]
pub struct PublishOutcome {
    /// The log held an event with the same idempotency key.
    pub duplicate: bool,
}

/// Whether a character has the Unicode property White_Space.
pub open spec fn white_space(c: char) -> bool {
    let code = c as u32;
    ||| 0x09 <= code <= 0x0D
    ||| code == 0x20
    ||| code == 0x85
    ||| code == 0xA0
    ||| code == 0x1680
    ||| 0x2000 <= code <= 0x200A
    ||| code == 0x2028
    ||| code == 0x2029
    ||| code == 0x202F
    ||| code == 0x205F
    ||| code == 0x3000
}

/// Whether a text is empty or holds white space only.
pub open spec fn blank(s: Seq<char>) -> bool {
    forall|i: int| 0 <= i < s.len() ==> white_space(s[i])
}

/// The fault of an event of a batch for a track, as the text of the error;
/// `None` for an event that is in order. The checks come in this order:
/// track id present, track id that of the batch, message type present,
/// message type that of the payload, client id present, boot id present.
pub open spec fn event_fault(event: TrackIngestEvent, track_id: Seq<char>) -> Option<Seq<char>> {
    if blank(event.track_id@) {
        Some("event.track_id is required"@)
    } else if event.track_id@ != track_id {
        Some("event.track_id must match request track_id"@)
    } else if blank(event.message_type@) {
        Some("event.message_type is required"@)
    } else if event.message_type@ != message_type_tag(event.payload) {
        Some(
            "event.message_type must match payload type: expected "@ + message_type_tag(
                event.payload,
            ),
        )
    } else if blank(event.event_id_context.client_id@) {
        Some("event.event_id_context.client_id is required"@)
    } else if blank(event.event_id_context.boot_id@) {
        Some("event.event_id_context.boot_id is required"@)
    } else {
        None
    }
}

/// The fault of the first event that has one.
pub open spec fn first_event_fault(events: Seq<TrackIngestEvent>, track_id: Seq<char>) -> Option<
    Seq<char>,
>
    decreases events.len(),
{
    if events.len() == 0 {
        None
    } else {
        match event_fault(events[0], track_id) {
            Some(fault) => Some(fault),
            None => first_event_fault(events.skip(1), track_id),
        }
    }
}

/// The fault of a batch, as the text of the error; `None` for a batch that
/// is taken. The contract version is checked first, then the track id of
/// the batch, then the events in order.
pub open spec fn batch_fault(request: TrackIngestBatchRequest) -> Option<Seq<char>> {
    if request.contract_version@ != "track_ingest.v2"@ {
        Some("Unsupported contract_version: "@ + request.contract_version@)
    } else if blank(request.track_id@) {
        Some("track_id is required"@)
    } else {
        first_event_fault(request.events@, request.track_id@)
    }
}

/// The number of events that the log took as new.
pub open spec fn accepted_count(outcomes: Seq<PublishOutcome>) -> nat
    decreases outcomes.len(),
{
    if outcomes.len() == 0 {
        0
    } else {
        accepted_count(outcomes.drop_last()) + if outcomes.last().duplicate {
            0nat
        } else {
            1nat
        }
    }
}

/// The number of events that the log had seen before.
pub open spec fn duplicate_count(outcomes: Seq<PublishOutcome>) -> nat
    decreases outcomes.len(),
{
    if outcomes.len() == 0 {
        0
    } else {
        duplicate_count(outcomes.drop_last()) + if outcomes.last().duplicate {
            1nat
        } else {
            0nat
        }
    }
}

/// Tells whether a character is white space.
pub fn is_white_space(c: char) -> (b: bool)
    ensures
        b == white_space(c),
{
    let code: u32 = c as u32;
    (0x09 <= code && code <= 0x0D) || code == 0x20 || code == 0x85 || code == 0xA0 || code == 0x1680
        || (0x2000 <= code && code <= 0x200A) || code == 0x2028 || code == 0x2029 || code == 0x202F
        || code == 0x205F || code == 0x3000
}

/// Tells whether a text is empty or holds white space only.
pub fn is_blank(s: &str) -> (b: bool)
    ensures
        b == blank(s@),
{
    let n = s.unicode_len();
    let mut i: usize = 0;
    while i < n
        invariant
            i <= n,
            n == s@.len(),
            forall|k: int| 0 <= k < i ==> white_space(s@[k]),
        decreases n - i,
    {
        if !is_white_space(s.get_char(i)) {
            return false;
        }
        i += 1;
    }
    true
}

/// Compares two texts.
pub fn same_text(a: &str, b: &str) -> (r: bool)
    ensures
        r == (a@ == b@),
{
    String::from_str(a) == String::from_str(b)
}

/// Checks one event of a batch for a track.
pub fn validate_event(event: &TrackIngestEvent, track_id: &String) -> (r: Result<(), ApiError>)
    ensures
        match r {
            Ok(_) => event_fault(*event, track_id@) is None,
            Err(e) => e matches ApiError::BadRequest(text) && event_fault(*event, track_id@)
                == Some(text@),
        },
{
    if is_blank(event.track_id.as_str()) {
        return Err(ApiError::BadRequest(String::from_str("event.track_id is required")));
    }
    if event.track_id != *track_id {
        return Err(
            ApiError::BadRequest(String::from_str("event.track_id must match request track_id")),
        );
    }
    if is_blank(event.message_type.as_str()) {
        return Err(ApiError::BadRequest(String::from_str("event.message_type is required")));
    }
    let derived = message_type_from_message(&event.payload);
    if !same_text(event.message_type.as_str(), derived) {
        return Err(
            ApiError::BadRequest(
                String::from_str("event.message_type must match payload type: expected ").concat(
                    derived,
                ),
            ),
        );
    }
    if is_blank(event.event_id_context.client_id.as_str()) {
        return Err(
            ApiError::BadRequest(String::from_str("event.event_id_context.client_id is required")),
        );
    }
    if is_blank(event.event_id_context.boot_id.as_str()) {
        return Err(
            ApiError::BadRequest(String::from_str("event.event_id_context.boot_id is required")),
        );
    }
    Ok(())
}

/// Checks a batch before anything is published: the contract version, the
/// track id, and every event in order. The first fault found rejects the
/// batch with `BadRequest` and its text; a batch without events is in
/// order.
pub fn validate_batch(request: &TrackIngestBatchRequest) -> (r: Result<(), ApiError>)
    ensures
        match r {
            Ok(_) => batch_fault(*request) is None,
            Err(e) => e matches ApiError::BadRequest(text) && batch_fault(*request) == Some(text@),
        },
{
    if !same_text(request.contract_version.as_str(), TRACK_INGEST_CONTRACT_VERSION_V2) {
        return Err(
            ApiError::BadRequest(
                String::from_str("Unsupported contract_version: ").concat(
                    request.contract_version.as_str(),
                ),
            ),
        );
    }
    if is_blank(request.track_id.as_str()) {
        return Err(ApiError::BadRequest(String::from_str("track_id is required")));
    }
    let mut i: usize = 0;
    proof {
        assert(request.events@.skip(0) == request.events@);
    }
    while i < request.events.len()
        invariant
            i <= request.events@.len(),
            request.contract_version@ == "track_ingest.v2"@,
            !blank(request.track_id@),
            first_event_fault(request.events@, request.track_id@) == first_event_fault(
                request.events@.skip(i as int),
                request.track_id@,
            ),
        decreases request.events@.len() - i,
    {
        proof {
            let rest = request.events@.skip(i as int);
            assert(rest[0] == request.events@[i as int]);
            assert(rest.skip(1) == request.events@.skip(i + 1));
        }
        match validate_event(&request.events[i], &request.track_id) {
            Ok(_) => {},
            Err(e) => {
                return Err(e);
            },
        }
        i += 1;
    }
    proof {
        assert(request.events@.skip(i as int).len() == 0);
    }
    Ok(())
}

/// Counts what the log reported for the events of a batch: the answer to
/// the batch.
pub fn tally(outcomes: &[PublishOutcome]) -> (response: TrackIngestBatchResponse)
    ensures
        response.accepted == accepted_count(outcomes@),
        response.duplicates == duplicate_count(outcomes@),
        response.accepted + response.duplicates == outcomes@.len(),
{
    let mut accepted: usize = 0;
    let mut duplicates: usize = 0;
    let mut i: usize = 0;
    proof {
        assert(outcomes@.take(0).len() == 0);
    }
    while i < outcomes.len()
        invariant
            i <= outcomes@.len(),
            accepted == accepted_count(outcomes@.take(i as int)),
            duplicates == duplicate_count(outcomes@.take(i as int)),
            accepted + duplicates == i,
        decreases outcomes@.len() - i,
    {
        proof {
            let next = outcomes@.take(i + 1);
            assert(next.drop_last() == outcomes@.take(i as int));
            assert(next.last() == outcomes@[i as int]);
        }
        if outcomes[i].duplicate {
            duplicates += 1;
        } else {
            accepted += 1;
        }
        i += 1;
    }
    proof {
        assert(outcomes@.take(i as int) == outcomes@);
    }
    TrackIngestBatchResponse { accepted, duplicates }
}

/// The idempotency keys of the events of a batch, in order.
pub open spec fn batch_keys(request: TrackIngestBatchRequest) -> Seq<Seq<char>> {
    request.events@.map_values(
        |e: TrackIngestEvent|
            idempotency_key(
                e.track_id@,
                e.event_id_context.client_id@,
                e.event_id_context.boot_id@,
                e.event_id_context.seq,
            ),
    )
}

/// What a log that holds the keys `seen` within its dedupe window reports
/// when events with the keys `keys` are published in order: an event is a
/// duplicate when its key is held already or came earlier in the run.
pub open spec fn log_outcomes(seen: Set<Seq<char>>, keys: Seq<Seq<char>>) -> Seq<PublishOutcome>
    decreases keys.len(),
{
    if keys.len() == 0 {
        Seq::empty()
    } else {
        let earlier = keys.drop_last();
        log_outcomes(seen, earlier).push(
            PublishOutcome { duplicate: seen.contains(keys.last()) || earlier.contains(keys.last()) },
        )
    }
}

/// The keys that the log holds after such a run.
pub open spec fn log_after(seen: Set<Seq<char>>, keys: Seq<Seq<char>>) -> Set<Seq<char>> {
    seen.union(keys.to_set())
}

/// Whether no key occurs twice.
pub open spec fn distinct_keys(keys: Seq<Seq<char>>) -> bool {
    forall|i: int, j: int| 0 <= i < j < keys.len() ==> keys[i] != keys[j]
}

/// Every event is counted once, as accepted or as a duplicate.
pub proof fn law_counts_add_up(outcomes: Seq<PublishOutcome>)
    ensures
        accepted_count(outcomes) + duplicate_count(outcomes) == outcomes.len(),
    decreases outcomes.len(),
{
    if outcomes.len() > 0 {
        law_counts_add_up(outcomes.drop_last());
    }
}

/// A run whose keys the log holds already is reported as duplicates
/// throughout.
pub proof fn lemma_held_keys_are_duplicates(seen: Set<Seq<char>>, keys: Seq<Seq<char>>)
    requires
        forall|i: int| 0 <= i < keys.len() ==> seen.contains(keys[i]),
    ensures
        accepted_count(log_outcomes(seen, keys)) == 0,
        duplicate_count(log_outcomes(seen, keys)) == keys.len(),
    decreases keys.len(),
{
    if keys.len() > 0 {
        let earlier = keys.drop_last();
        assert forall|i: int| 0 <= i < earlier.len() implies seen.contains(earlier[i]) by {
            assert(earlier[i] == keys[i]);
        }
        lemma_held_keys_are_duplicates(seen, earlier);
        let out = log_outcomes(seen, keys);
        assert(out.drop_last() == log_outcomes(seen, earlier));
        assert(out.last().duplicate);
    }
}

/// A run of keys that are new to the log and differ from each other is
/// accepted throughout.
pub proof fn lemma_new_keys_are_accepted(seen: Set<Seq<char>>, keys: Seq<Seq<char>>)
    requires
        distinct_keys(keys),
        forall|i: int| 0 <= i < keys.len() ==> !seen.contains(keys[i]),
    ensures
        accepted_count(log_outcomes(seen, keys)) == keys.len(),
        duplicate_count(log_outcomes(seen, keys)) == 0,
    decreases keys.len(),
{
    if keys.len() > 0 {
        let earlier = keys.drop_last();
        assert forall|i: int| 0 <= i < earlier.len() implies !seen.contains(earlier[i]) by {
            assert(earlier[i] == keys[i]);
        }
        assert(distinct_keys(earlier)) by {
            assert forall|i: int, j: int| 0 <= i < j < earlier.len() implies earlier[i]
                != earlier[j] by {
                assert(earlier[i] == keys[i]);
                assert(earlier[j] == keys[j]);
            }
        }
        lemma_new_keys_are_accepted(seen, earlier);
        let out = log_outcomes(seen, keys);
        assert(out.drop_last() == log_outcomes(seen, earlier));
        assert(!earlier.contains(keys.last())) by {
            if earlier.contains(keys.last()) {
                let i = choose|i: int| 0 <= i < earlier.len() && earlier[i] == keys.last();
                assert(keys[i] == keys[keys.len() - 1]);
            }
        }
        assert(!out.last().duplicate);
    }
}

/// Idempotent ingest. Publishing a batch a second time within the dedupe
/// window accepts nothing and reports every event as a duplicate, whatever
/// the batch. If the keys of the batch were new to the log and differ from
/// each other, the first publication accepts them all: the accepted counts
/// of the two publications add up to the size of the batch, and the
/// duplicates of the second are the accepted of the first.
///
/// A batch that holds a key twice, or a key that the log held before, has
/// fewer events accepted the first time; for it only the first part holds.
pub proof fn law_idempotent_ingest(seen: Set<Seq<char>>, keys: Seq<Seq<char>>)
    ensures
        accepted_count(log_outcomes(log_after(seen, keys), keys)) == 0,
        duplicate_count(log_outcomes(log_after(seen, keys), keys)) == keys.len(),
        distinct_keys(keys) && (forall|i: int| 0 <= i < keys.len() ==> !seen.contains(keys[i])) ==> {
            let first = log_outcomes(seen, keys);
            let second = log_outcomes(log_after(seen, keys), keys);
            &&& accepted_count(first) + accepted_count(second) == keys.len()
            &&& duplicate_count(second) == accepted_count(first)
        },
{
    let after = log_after(seen, keys);
    assert forall|i: int| 0 <= i < keys.len() implies after.contains(keys[i]) by {
        assert(keys.to_set().contains(keys[i]));
    }
    lemma_held_keys_are_duplicates(after, keys);
    if distinct_keys(keys) && (forall|i: int| 0 <= i < keys.len() ==> !seen.contains(keys[i])) {
        lemma_new_keys_are_accepted(seen, keys);
    }
}

} // verus!
