//! Cutting a byte stream into wire frames.
//!
//! The LENGTH header field counts unescaped bytes, while the stream carries
//! escape pairs; so the end of a frame is found by walking its bytes and
//! counting each escape pair as one.

use vstd::prelude::*;
use vstd::slice::slice_subrange;
use crate::parser::error::ParseError;
use crate::parser::messages::{Message, MessageView};
use crate::parser::{message_parsed, outcome_view, Parser};
use crate::protocol::types::{le_u16, u16_from_le, ESCAPE, SOR};

verus! {

/// What a call of `MessageFramer::feed` hands back for each frame.
pub type FrameResult = Result<Message, ParseError>;

/// Position of the first SOR byte, if there is one.
pub open spec fn sor_position(buf: Seq<u8>) -> Option<int>
    decreases buf.len(),
{
    if buf.len() == 0 {
        None
    } else if buf[0] == 0x8Eu8 {
        Some(0)
    } else {
        match sor_position(buf.skip(1)) {
            Some(p) => Some(p + 1),
            None => None,
        }
    }
}

/// The position just behind `count` unescaped bytes that start at `pos`,
/// where an escape byte and its successor count as one; `None` when the
/// buffer ends first, be it in the middle of an escape pair.
pub open spec fn escaped_end(buf: Seq<u8>, pos: int, count: nat) -> Option<int>
    decreases count,
{
    if count == 0 {
        Some(pos)
    } else if pos >= buf.len() {
        None
    } else if buf[pos] == 0x8Du8 {
        if pos + 1 >= buf.len() {
            None
        } else {
            escaped_end(buf, pos + 2, (count - 1) as nat)
        }
    } else {
        escaped_end(buf, pos + 1, (count - 1) as nat)
    }
}

/// Start and end of the first complete frame of a buffer: the frame starts
/// at the first SOR and ends where the walk of its declared length ends.
/// `None` without SOR, with fewer than four bytes from SOR on, and when the
/// buffer ends before the frame does.
pub open spec fn frame_span(buf: Seq<u8>) -> Option<(int, int)> {
    match sor_position(buf) {
        None => None,
        Some(p) => if buf.len() < p + 4 {
            None
        } else {
            match escaped_end(buf, p, le_u16(buf[p + 2], buf[p + 3]) as nat) {
                None => None,
                Some(end) => Some((p, end)),
            }
        },
    }
}

/// The end of the first complete frame of a buffer.
pub open spec fn frame_end(buf: Seq<u8>) -> Option<int> {
    match frame_span(buf) {
        None => None,
        Some(span) => Some(span.1),
    }
}

/// What framing a buffer yields: the parse results of its complete frames in
/// order, and the bytes that stay behind.
pub struct Framed {
    pub results: Seq<Result<MessageView, ParseError>>,
    pub rest: Seq<u8>,
}

/// Frames a buffer. Each complete frame is parsed, whatever the outcome, and
/// the buffer is cut behind it; bytes in front of a frame's SOR go with it.
/// Framing stops at the first incomplete frame. It also stops behind a frame
/// that ends at position 0, a header that declares length 0 at the very
/// front: its parse error is reported and the buffer is left as it is,
/// since cutting there would not advance.
pub open spec fn framed(buf: Seq<u8>) -> Framed
    decreases buf.len(),
{
    match frame_span(buf) {
        None => Framed { results: Seq::empty(), rest: buf },
        Some((p, end)) => {
            let result = message_parsed(buf.subrange(p, end));
            if 0 < end <= buf.len() {
                let next = framed(buf.skip(end));
                Framed { results: seq![result] + next.results, rest: next.rest }
            } else {
                Framed { results: seq![result], rest: buf }
            }
        },
    }
}

/// The outcomes of a result vector as mathematical values.
pub open spec fn outcomes_of(results: Seq<FrameResult>) -> Seq<Result<MessageView, ParseError>> {
    results.map_values(|r: FrameResult| outcome_view(r))
}

/// Whether a byte sequence is exactly one wire frame: it starts with SOR,
/// holds the LENGTH field, and the walk of the declared length ends at its
/// last byte.
pub open spec fn is_wire_frame(f: Seq<u8>) -> bool {
    &&& f.len() >= 4
    &&& f[0] == 0x8Eu8
    &&& escaped_end(f, 0, le_u16(f[2], f[3]) as nat) == Some(f.len() as int)
}

/// Finds where `unescaped_length` unescaped bytes that start at `start_pos`
/// end in the buffer. `None` when the buffer does not hold them all yet.
pub fn calculate_escaped_message_end(
    buffer: &[u8],
    start_pos: usize,
    unescaped_length: usize,
) -> (r: Option<usize>)
    ensures
        match r {
            Some(end) => escaped_end(buffer@, start_pos as int, unescaped_length as nat) == Some(
                end as int,
            ),
            None => escaped_end(buffer@, start_pos as int, unescaped_length as nat) is None,
        },
{
    let mut buffer_pos: usize = start_pos;
    let mut unescaped_count: usize = 0;
    while unescaped_count < unescaped_length
        invariant
            unescaped_count <= unescaped_length,
            escaped_end(buffer@, start_pos as int, unescaped_length as nat) == escaped_end(
                buffer@,
                buffer_pos as int,
                (unescaped_length - unescaped_count) as nat,
            ),
        decreases unescaped_length - unescaped_count,
    {
        if buffer_pos >= buffer.len() {
            return None;
        }
        if buffer[buffer_pos] == ESCAPE {
            if buffer_pos + 1 >= buffer.len() {
                return None;
            }
            buffer_pos += 2;
            unescaped_count += 1;
        } else {
            buffer_pos += 1;
            unescaped_count += 1;
        }
    }
    Some(buffer_pos)
}

/// Finds the first SOR byte.
fn find_sor(buffer: &[u8]) -> (r: Option<usize>)
    ensures
        match r {
            Some(p) => sor_position(buffer@) == Some(p as int) && p < buffer@.len(),
            None => sor_position(buffer@) is None,
        },
{
    let mut i: usize = 0;
    proof {
        assert(buffer@.skip(0) == buffer@);
    }
    while i < buffer.len()
        invariant
            i <= buffer.len(),
            sor_position(buffer@) == match sor_position(buffer@.skip(i as int)) {
                Some(p) => Some(p + i),
                None => None,
            },
        decreases buffer.len() - i,
    {
        proof {
            let rest = buffer@.skip(i as int);
            assert(rest[0] == buffer@[i as int]);
            assert(rest.skip(1) == buffer@.skip(i + 1));
        }
        if buffer[i] == SOR {
            return Some(i);
        }
        i += 1;
    }
    proof {
        assert(buffer@.skip(i as int).len() == 0);
    }
    None
}

/// Finds start and end of the first complete frame of a buffer.
pub fn find_frame(buffer: &[u8]) -> (r: Option<(usize, usize)>)
    ensures
        match r {
            Some((p, end)) => frame_span(buffer@) == Some((p as int, end as int)) && p <= end
                <= buffer@.len(),
            None => frame_span(buffer@) is None,
        },
{
    let sor_pos = match find_sor(buffer) {
        Some(p) => p,
        None => {
            return None;
        },
    };
    if buffer.len() - sor_pos < 4 {
        return None;
    }
    let unescaped_length = u16_from_le(buffer[sor_pos + 2], buffer[sor_pos + 3]) as usize;
    match calculate_escaped_message_end(buffer, sor_pos, unescaped_length) {
        Some(end) => {
            proof {
                lemma_escaped_end_bounds(buffer@, sor_pos as int, unescaped_length as nat);
            }
            Some((sor_pos, end))
        },
        None => None,
    }
}

/// Finds the end of the first complete frame of a buffer: the frame starts
/// at the first SOR, and its LENGTH field says how many unescaped bytes it
/// has.
pub fn find_complete_message(buffer: &[u8]) -> (r: Option<usize>)
    ensures
        match r {
            Some(end) => frame_end(buffer@) == Some(end as int) && end <= buffer@.len(),
            None => frame_end(buffer@) is None,
        },
{
    match find_frame(buffer) {
        Some((_, end)) => Some(end),
        None => None,
    }
}

/// Collects the bytes of a stream and yields the parse result of every
/// complete frame.
pub struct MessageFramer {
    buffer: Vec<u8>,
    parser: Parser,
}

impl MessageFramer {
    /// The bytes received and not yet cut off as frames.
    pub closed spec fn buffered(&self) -> Seq<u8> {
        self.buffer@
    }

    pub fn new() -> (f: Self)
        ensures
            f.buffered() == Seq::<u8>::empty(),
    {
        MessageFramer { buffer: Vec::new(), parser: Parser::new() }
    }

    /// The number of bytes held back.
    pub fn pending_len(&self) -> (n: usize)
        ensures
            n == self.buffered().len(),
    {
        self.buffer.len()
    }

    /// Takes in bytes of the stream and parses every frame that is now
    /// complete. A frame that fails to parse yields its error and is
    /// consumed like any other: the boundary is trusted from the length
    /// field, and no bytes are skipped to resynchronise.
    pub fn feed(&mut self, data: &[u8]) -> (results: Vec<FrameResult>)
        ensures
            outcomes_of(results@) == framed(old(self).buffered() + data@).results,
            results@.len() == framed(old(self).buffered() + data@).results.len(),
            final(self).buffered() == framed(old(self).buffered() + data@).rest,
    {
        let ghost total = self.buffer@ + data@;
        self.buffer.extend_from_slice(data);
        assert(self.buffer@ =~= total);
        let mut results: Vec<FrameResult> = Vec::new();
        let mut more = true;
        proof {
            assert(outcomes_of(results@) + framed(total).results =~= framed(total).results);
        }
        while more
            invariant
                more ==> framed(total).results == outcomes_of(results@) + framed(
                    self.buffer@,
                ).results,
                more ==> framed(total).rest == framed(self.buffer@).rest,
                !more ==> framed(total).results == outcomes_of(results@),
                !more ==> framed(total).rest == self.buffer@,
            decreases
                    if more {
                        self.buffer@.len() + 1
                    } else {
                        0
                    },
        {
            let ghost before = outcomes_of(results@);
            let ghost buf = self.buffer@;
            match find_frame(self.buffer.as_slice()) {
                None => {
                    more = false;
                    proof {
                        assert(before + Seq::empty() =~= before);
                    }
                },
                Some((start, end)) => {
                    let result = self.parser.parse(
                        slice_subrange(self.buffer.as_slice(), start, end),
                    );
                    let ghost outcome = outcome_view(result);
                    results.push(result);
                    proof {
                        assert(outcomes_of(results@) =~= before.push(outcome));
                    }
                    if end == 0 {
                        more = false;
                        proof {
                            assert(before + seq![outcome] =~= before.push(outcome));
                        }
                    } else {
                        let tail = self.buffer.split_off(end);
                        self.buffer = tail;
                        proof {
                            assert(self.buffer@ =~= buf.skip(end as int));
                            let next = framed(buf.skip(end as int));
                            assert(before + (seq![outcome] + next.results) =~= before.push(outcome)
                                + next.results);
                        }
                    }
                },
            }
        }
        assert(outcomes_of(results@).len() == results@.len());
        results
    }
}

impl Default for MessageFramer {
    fn default() -> (f: Self) {
        MessageFramer::new()
    }
}

/// A walk that succeeds from inside the buffer ends inside the buffer, at or
/// behind where it started.
pub proof fn lemma_escaped_end_bounds(buf: Seq<u8>, pos: int, count: nat)
    requires
        0 <= pos <= buf.len(),
    ensures
        escaped_end(buf, pos, count) matches Some(end) ==> pos + count <= end <= buf.len(),
    decreases count,
{
    if count > 0 && pos < buf.len() {
        if buf[pos] == 0x8Du8 {
            if pos + 1 < buf.len() {
                lemma_escaped_end_bounds(buf, pos + 2, (count - 1) as nat);
            }
        } else {
            lemma_escaped_end_bounds(buf, pos + 1, (count - 1) as nat);
        }
    }
}

/// A walk that succeeds is not changed by bytes that come behind the buffer.
pub proof fn lemma_escaped_end_extends(buf: Seq<u8>, more: Seq<u8>, pos: int, count: nat)
    requires
        0 <= pos <= buf.len(),
        escaped_end(buf, pos, count) is Some,
    ensures
        escaped_end(buf + more, pos, count) == escaped_end(buf, pos, count),
    decreases count,
{
    if count > 0 {
        assert((buf + more)[pos] == buf[pos]);
        if buf[pos] == 0x8Du8 {
            lemma_escaped_end_extends(buf, more, pos + 2, (count - 1) as nat);
        } else {
            lemma_escaped_end_extends(buf, more, pos + 1, (count - 1) as nat);
        }
    }
}

/// A buffer that starts with SOR has its first SOR at position 0.
proof fn lemma_frame_starts_at_zero(f: Seq<u8>, more: Seq<u8>)
    requires
        is_wire_frame(f),
    ensures
        frame_span(f + more) == Some((0int, f.len() as int)),
{
    let buf = f + more;
    assert(buf[0] == f[0]);
    assert(buf[2] == f[2]);
    assert(buf[3] == f[3]);
    lemma_escaped_end_extends(f, more, 0, le_u16(f[2], f[3]) as nat);
}

/// Frame boundary, whole frames: framing two wire frames laid end to end
/// yields the parse result of the first, then that of the second, and leaves
/// nothing behind.
pub proof fn law_two_frames_are_framed_in_order(f1: Seq<u8>, f2: Seq<u8>)
    requires
        is_wire_frame(f1),
        is_wire_frame(f2),
    ensures
        framed(f1 + f2) == (Framed {
            results: seq![message_parsed(f1), message_parsed(f2)],
            rest: Seq::<u8>::empty(),
        }),
{
    let buf = f1 + f2;
    let nothing = Seq::<u8>::empty();
    lemma_frame_starts_at_zero(f1, f2);
    assert(buf.subrange(0, f1.len() as int) == f1);
    assert(buf.skip(f1.len() as int) == f2);
    lemma_frame_starts_at_zero(f2, nothing);
    assert(f2 + nothing == f2);
    assert(f2.subrange(0, f2.len() as int) == f2);
    assert(f2.skip(f2.len() as int) == nothing);
    assert(framed(nothing) == Framed { results: Seq::empty(), rest: nothing });
    assert(framed(f2).results == seq![message_parsed(f2)] + Seq::empty());
    assert(framed(f2).results =~= seq![message_parsed(f2)]);
    assert(framed(buf).results =~= seq![message_parsed(f1), message_parsed(f2)]);
}

/// Frame boundary, part of a frame: framing a strict prefix of a wire frame
/// yields nothing and keeps the whole prefix.
pub proof fn law_frame_prefix_is_held_back(f: Seq<u8>, k: int)
    requires
        is_wire_frame(f),
        0 <= k < f.len(),
    ensures
        framed(f.take(k)) == (Framed { results: Seq::empty(), rest: f.take(k) }),
{
    let prefix = f.take(k);
    if k >= 4 {
        assert(prefix[0] == f[0]);
        let count = le_u16(f[2], f[3]) as nat;
        assert(prefix[2] == f[2]);
        assert(prefix[3] == f[3]);
        if escaped_end(prefix, 0, count) is Some {
            lemma_escaped_end_bounds(prefix, 0, count);
            lemma_escaped_end_extends(prefix, f.skip(k), 0, count);
            assert(prefix + f.skip(k) == f);
        }
    } else if k > 0 {
        assert(prefix[0] == f[0]);
    }
}

} // verus!
