//! The track client's bookkeeping: the events captured and not yet
//! delivered, their sequence numbers, and what becomes of a batch.
//!
//! The client reads the decoder, posts batches and waits; what is decided
//! in between is decided here.

use vstd::prelude::*;
use crate::parser::messages::Message;

verus! {

/// A decoder message captured by the client, waiting for delivery.
#[derive(Debug, PartialEq)]
pub struct IngestEvent {
    /// Number of the event in this run of the client; never used twice.
    pub seq: u64,
    /// Wall clock of the client at capture.
    pub captured_at_us: u64,
    pub message: Message,
}

impl Clone for IngestEvent {
    fn clone(&self) -> (r: Self)
        ensures
            r == *self,
    {
        IngestEvent {
            seq: self.seq,
            captured_at_us: self.captured_at_us,
            message: self.message.clone(),
        }
    }
}

/// What became of a posted batch.
#[derive(Debug, Clone, Copy, PartialEq, Eq, Structural)]
pub enum FlushOutcome {
    /// The server took the batch.
    Delivered,
    /// The server refused the batch as wrong; posting it again would not
    /// help.
    Rejected,
    /// The batch did not get through, or the server failed.
    Failed,
}

/// What becomes of a batch after a post: `None` stands for a post without
/// an answer. A status of 200 to 299 delivers, one of 400 to 499 rejects,
/// anything else fails.
pub open spec fn flush_outcome(status: Option<u16>) -> FlushOutcome {
    match status {
        None => FlushOutcome::Failed,
        Some(code) => if 200 <= code <= 299 {
            FlushOutcome::Delivered
        } else if 400 <= code <= 499 {
            FlushOutcome::Rejected
        } else {
            FlushOutcome::Failed
        },
    }
}

/// The pending events after a trim to at most `max` events: the newest
/// `max` of them.
pub open spec fn trimmed(pending: Seq<IngestEvent>, max: nat) -> Seq<IngestEvent> {
    if pending.len() <= max {
        pending
    } else {
        pending.skip(pending.len() - max)
    }
}

/// Whether the sequence numbers of a run of events count strictly upwards.
pub open spec fn increasing(events: Seq<IngestEvent>) -> bool {
    forall|i: int, j: int| 0 <= i < j < events.len() ==> events[i].seq < events[j].seq
}

/// The number after `seq`, held at the largest.
pub open spec fn next_after(seq: u64) -> u64 {
    if seq < u64::MAX {
        (seq + 1) as u64
    } else {
        seq
    }
}

/// Classifies the answer to a post.
pub fn classify_flush(status: Option<u16>) -> (outcome: FlushOutcome)
    ensures
        outcome == flush_outcome(status),
{
    match status {
        None => FlushOutcome::Failed,
        Some(code) => if 200 <= code && code <= 299 {
            FlushOutcome::Delivered
        } else if 400 <= code && code <= 499 {
            FlushOutcome::Rejected
        } else {
            FlushOutcome::Failed
        },
    }
}

/// Drops the oldest events so that at most `max_buffer_events` stay
/// pending, and says how many were dropped.
pub fn trim_pending_if_needed(max_buffer_events: usize, pending: &mut Vec<IngestEvent>) -> (dropped:
    usize)
    ensures
        final(pending)@ == trimmed(old(pending)@, max_buffer_events as nat),
        dropped == old(pending)@.len() - final(pending)@.len(),
        final(pending)@.len() <= max_buffer_events,
        increasing(old(pending)@) ==> increasing(final(pending)@),
{
    if pending.len() <= max_buffer_events {
        return 0;
    }
    let to_drop = pending.len() - max_buffer_events;
    let kept = pending.split_off(to_drop);
    *pending = kept;
    to_drop
}

/// The events captured and not yet delivered, oldest first, and the number
/// of the next event.
pub struct PendingQueue {
    events: Vec<IngestEvent>,
    next_seq: u64,
}

/// The state of a pending queue as a mathematical value.
pub struct QueueModel {
    pub events: Seq<IngestEvent>,
    pub next_seq: u64,
}

/// The invariant of the queue while numbers last: the pending events count
/// strictly upwards and lie below the next number.
pub open spec fn in_order(m: QueueModel) -> bool {
    &&& increasing(m.events)
    &&& forall|i: int| 0 <= i < m.events.len() ==> m.events[i].seq < m.next_seq
}

impl View for PendingQueue {
    type V = QueueModel;

    closed spec fn view(&self) -> QueueModel {
        QueueModel { events: self.events@, next_seq: self.next_seq }
    }
}

impl PendingQueue {
    /// An empty queue; the first event gets the number 1.
    pub fn new() -> (q: Self)
        ensures
            q@.events == Seq::<IngestEvent>::empty(),
            q@.next_seq == 1,
            in_order(q@),
    {
        PendingQueue { events: Vec::new(), next_seq: 1 }
    }

    /// The number of pending events.
    pub fn len(&self) -> (n: usize)
        ensures
            n == self@.events.len(),
    {
        self.events.len()
    }

    /// Whether nothing is pending.
    pub fn is_empty(&self) -> (b: bool)
        ensures
            b == (self@.events.len() == 0),
    {
        self.events.len() == 0
    }

    /// Appends a captured message under the next number, and says whether a
    /// batch is due: whether `batch_size` events or more are pending.
    pub fn push(&mut self, captured_at_us: u64, message: Message, batch_size: usize) -> (due: bool)
        ensures
            final(self)@.events == old(self)@.events.push(
                IngestEvent { seq: old(self)@.next_seq, captured_at_us, message },
            ),
            final(self)@.next_seq == next_after(old(self)@.next_seq),
            due == (final(self)@.events.len() >= batch_size),
            in_order(old(self)@) && old(self)@.next_seq < u64::MAX ==> in_order(final(self)@),
    {
        let seq = self.next_seq;
        self.events.push(IngestEvent { seq, captured_at_us, message });
        self.next_seq = if seq < u64::MAX {
            seq + 1
        } else {
            seq
        };
        self.events.len() >= batch_size
    }

    /// Takes every pending event out for posting.
    pub fn take_batch(&mut self) -> (batch: Vec<IngestEvent>)
        ensures
            batch@ == old(self)@.events,
            final(self)@.events == Seq::<IngestEvent>::empty(),
            final(self)@.next_seq == old(self)@.next_seq,
            in_order(old(self)@) ==> in_order(final(self)@),
    {
        let mut batch: Vec<IngestEvent> = Vec::new();
        batch.append(&mut self.events);
        assert(batch@ =~= old(self)@.events);
        batch
    }

    /// Settles a posted batch. A batch that was delivered or rejected is
    /// gone; one that failed goes back in front of what has been captured
    /// since, so that the order of capture is kept.
    pub fn settle(&mut self, batch: Vec<IngestEvent>, outcome: FlushOutcome)
        ensures
            final(self)@.next_seq == old(self)@.next_seq,
            final(self)@.events == if outcome == FlushOutcome::Failed {
                batch@ + old(self)@.events
            } else {
                old(self)@.events
            },
    {
        match outcome {
            FlushOutcome::Failed => {
                let mut restored = batch;
                restored.append(&mut self.events);
                self.events = restored;
            },
            _ => {},
        }
    }

    /// Drops the oldest events so that at most `max_buffer_events` stay
    /// pending, and says how many were dropped.
    pub fn trim(&mut self, max_buffer_events: usize) -> (dropped: usize)
        ensures
            final(self)@.events == trimmed(old(self)@.events, max_buffer_events as nat),
            final(self)@.next_seq == old(self)@.next_seq,
            dropped == old(self)@.events.len() - final(self)@.events.len(),
            in_order(old(self)@) ==> in_order(final(self)@),
    {
        trim_pending_if_needed(max_buffer_events, &mut self.events)
    }
}

} // verus!
