//! Escaping of control bytes.
//!
//! Inside a frame every byte of 0x8A..=0x8F travels as the escape byte
//! followed by the byte plus 0x20, so that SOR and EOR only ever mark the
//! frame's two ends. The LENGTH header field counts unescaped bytes.

use vstd::prelude::*;
use crate::protocol::error::EscapeError;
use crate::protocol::types::{ESCAPE, ESCAPE_OFFSET, ESCAPE_RANGE_END, ESCAPE_RANGE_START};

verus! {

/// Sizes of a byte sequence before and after escaping.
#[derive(Debug, Clone, Copy, PartialEq, Eq, Structural)]
pub struct EscapeInfo {
    /// Length before escaping.
    pub unescaped_length: usize,
    /// Length after escaping.
    pub escaped_length: usize,
    /// Number of bytes that were escaped.
    pub escape_count: usize,
}

/// Whether a byte lies in the control range 0x8A..=0x8F.
pub open spec fn is_control(b: u8) -> bool {
    0x8A <= b <= 0x8F
}

/// Whether a byte is the second byte of a valid escape pair, 0xAA..=0xAF.
pub open spec fn is_escaped_value(b: u8) -> bool {
    0xAA <= b <= 0xAF
}

/// The wire form of one byte.
pub open spec fn escape_one(b: u8) -> Seq<u8> {
    if is_control(b) {
        seq![0x8Du8, (b + 0x20) as u8]
    } else {
        seq![b]
    }
}

/// The wire form of a byte sequence.
pub open spec fn escaped(s: Seq<u8>) -> Seq<u8>
    decreases s.len(),
{
    if s.len() == 0 {
        Seq::<u8>::empty()
    } else {
        escape_one(s[0]) + escaped(s.skip(1))
    }
}

/// The number of bytes that `escaped` produces.
pub open spec fn escaped_len(s: Seq<u8>) -> nat
    decreases s.len(),
{
    if s.len() == 0 {
        0
    } else {
        (if is_control(s[0]) { 2nat } else { 1nat }) + escaped_len(s.skip(1))
    }
}

/// The number of bytes of a sequence that lie in the control range.
pub open spec fn control_count(s: Seq<u8>) -> nat
    decreases s.len(),
{
    if s.len() == 0 {
        0
    } else {
        (if is_control(s[0]) {
            1nat
        } else {
            0nat
        }) + control_count(s.skip(1))
    }
}

/// Puts a decoded byte in front of the decoding of the rest.
pub open spec fn prepend(b: u8, rest: Result<Seq<u8>, EscapeError>) -> Result<Seq<u8>, EscapeError> {
    match rest {
        Ok(r) => Ok(seq![b] + r),
        Err(e) => Err(e),
    }
}

/// The bytes that a wire sequence stands for, or the first fault met when
/// reading it front to back.
pub open spec fn unescaped(w: Seq<u8>) -> Result<Seq<u8>, EscapeError>
    decreases w.len(),
{
    if w.len() == 0 {
        Ok(Seq::<u8>::empty())
    } else if w[0] != 0x8Du8 {
        prepend(w[0], unescaped(w.skip(1)))
    } else if w.len() < 2 {
        Err(EscapeError::IncompleteSequence)
    } else if !is_escaped_value(w[1]) {
        Err(EscapeError::InvalidSequence(w[1]))
    } else {
        prepend((w[1] - 0x20) as u8, unescaped(w.skip(2)))
    }
}

/// Reading a wire sequence front to back, no control byte stands alone:
/// each is either an escape byte with a successor, or outside 0x8A..=0x8F.
pub open spec fn no_bare_control(w: Seq<u8>) -> bool
    decreases w.len(),
{
    if w.len() == 0 {
        true
    } else if w[0] == 0x8Du8 {
        w.len() >= 2 && is_escaped_value(w[1]) && no_bare_control(w.skip(2))
    } else {
        !is_control(w[0]) && no_bare_control(w.skip(1))
    }
}

/// Tells whether a byte must be escaped.
#[inline]
pub fn needs_escape(byte: u8) -> (b: bool)
    ensures
        b == is_control(byte),
{
    byte >= ESCAPE_RANGE_START && byte <= ESCAPE_RANGE_END
}

/// The escape pair of a byte: the escape byte, then the byte plus 0x20,
/// wrapping at 256. For a byte of the control range this is its wire form.
pub fn escape_byte(byte: u8) -> (pair: [u8; 2])
    ensures
        pair@ == seq![0x8Du8, ((byte as int + 0x20) % 256) as u8],
        is_control(byte) ==> pair@ == escape_one(byte),
{
    let shifted: u8 = if byte >= 0xE0 {
        byte - 0xE0
    } else {
        byte + ESCAPE_OFFSET
    };
    let pair = [ESCAPE, shifted];
    assert(pair@ =~= seq![0x8Du8, ((byte as int + 0x20) % 256) as u8]);
    pair
}

/// Escapes a byte sequence. Never fails.
pub fn encode(data: &[u8]) -> (out: Vec<u8>)
    ensures
        out@ == escaped(data@),
        out@.len() == escaped_len(data@),
        unescaped(out@) == Ok::<Seq<u8>, EscapeError>(data@),
        no_bare_control(out@),
{
    let mut out: Vec<u8> = Vec::new();
    let mut i: usize = 0;
    proof {
        assert(data@.skip(0) == data@);
        assert(out@ + escaped(data@) == escaped(data@));
    }
    while i < data.len()
        invariant
            i <= data.len(),
            out@ + escaped(data@.skip(i as int)) == escaped(data@),
        decreases data.len() - i,
    {
        let byte = data[i];
        let ghost before = out@;
        proof {
            let rest = data@.skip(i as int);
            assert(rest[0] == byte);
            assert(rest.skip(1) == data@.skip(i + 1));
            assert(before + (escape_one(byte) + escaped(rest.skip(1))) == (before + escape_one(
                byte,
            )) + escaped(rest.skip(1)));
        }
        if needs_escape(byte) {
            let pair = escape_byte(byte);
            out.push(pair[0]);
            out.push(pair[1]);
            assert(out@ == before + escape_one(byte)) by {
                assert(out@ =~= before + seq![0x8Du8, (byte + 0x20) as u8]);
            }
        } else {
            out.push(byte);
            assert(out@ =~= before + escape_one(byte));
        }
        i += 1;
    }
    proof {
        assert(escaped(data@.skip(i as int)) == Seq::<u8>::empty());
        assert(out@ + Seq::<u8>::empty() == out@);
        lemma_escaped_len(data@);
        law_escape_round_trip(data@);
        law_escaped_has_no_bare_control(data@);
    }
    out
}

/// The length that goes into the LENGTH header field: that of the data
/// before escaping.
#[inline]
pub fn unescaped_length(data: &[u8]) -> (n: usize)
    ensures
        n == data@.len(),
{
    data.len()
}

/// The number of bytes the data takes on the wire.
pub fn escaped_length(data: &[u8]) -> (n: usize)
    requires
        escaped_len(data@) <= usize::MAX,
    ensures
        n == escaped_len(data@),
        n == escaped(data@).len(),
{
    let mut n: usize = 0;
    let mut i: usize = 0;
    proof {
        assert(data@.skip(0) == data@);
    }
    while i < data.len()
        invariant
            i <= data.len(),
            n + escaped_len(data@.skip(i as int)) == escaped_len(data@),
            escaped_len(data@) <= usize::MAX,
        decreases data.len() - i,
    {
        proof {
            let rest = data@.skip(i as int);
            assert(rest[0] == data@[i as int]);
            assert(rest.skip(1) == data@.skip(i + 1));
        }
        if needs_escape(data[i]) {
            n += 2;
        } else {
            n += 1;
        }
        i += 1;
    }
    proof {
        assert(data@.skip(i as int).len() == 0);
        lemma_escaped_len(data@);
    }
    n
}

/// Escapes a byte sequence; another name for `encode`.
pub fn escape_data(data: &[u8]) -> (out: Vec<u8>)
    ensures
        out@ == escaped(data@),
        unescaped(out@) == Ok::<Seq<u8>, EscapeError>(data@),
        no_bare_control(out@),
{
    encode(data)
}

/// Removes escape pairs. Fails on an escape byte at the end of the data and
/// on an escape byte followed by anything outside 0xAA..=0xAF; the first
/// fault from the front decides.
pub fn unescape_data(data: &[u8]) -> (r: Result<Vec<u8>, EscapeError>)
    ensures
        match r {
            Ok(v) => unescaped(data@) == Ok::<Seq<u8>, EscapeError>(v@),
            Err(e) => unescaped(data@) == Err::<Seq<u8>, EscapeError>(e),
        },
{
    let mut out: Vec<u8> = Vec::new();
    let mut i: usize = 0;
    proof {
        assert(data@.skip(0) == data@);
        assert forall|rest: Seq<u8>| out@ + rest == rest by {
            assert(out@ + rest =~= rest);
        }
    }
    while i < data.len()
        invariant
            i <= data.len(),
            unescaped(data@) == match unescaped(data@.skip(i as int)) {
                Ok(rest) => Ok::<Seq<u8>, EscapeError>(out@ + rest),
                Err(e) => Err::<Seq<u8>, EscapeError>(e),
            },
        decreases data.len() - i,
    {
        let ghost rest = data@.skip(i as int);
        let ghost before = out@;
        assert(rest[0] == data@[i as int]);
        if data[i] == ESCAPE {
            if i + 1 >= data.len() {
                assert(rest.len() < 2);
                return Err(EscapeError::IncompleteSequence);
            }
            let next_byte = data[i + 1];
            assert(rest[1] == next_byte);
            if next_byte < 0xAA || next_byte > 0xAF {
                return Err(EscapeError::InvalidSequence(next_byte));
            }
            out.push(next_byte - ESCAPE_OFFSET);
            proof {
                assert(rest.skip(2) == data@.skip(i + 2));
                assert forall|tail: Seq<u8>|
                    before + (seq![(next_byte - 0x20) as u8] + tail) == out@ + tail by {
                    assert(before + (seq![(next_byte - 0x20) as u8] + tail) =~= out@ + tail);
                }
            }
            i += 2;
        } else {
            out.push(data[i]);
            proof {
                assert(rest.skip(1) == data@.skip(i + 1));
                assert forall|tail: Seq<u8>| before + (seq![rest[0]] + tail) == out@ + tail by {
                    assert(before + (seq![rest[0]] + tail) =~= out@ + tail);
                }
            }
            i += 1;
        }
    }
    proof {
        assert(data@.skip(i as int).len() == 0);
        assert(out@ + Seq::<u8>::empty() == out@);
    }
    Ok(out)
}

/// `escaped` of a concatenation is the concatenation of the parts.
pub proof fn lemma_escaped_concat(a: Seq<u8>, b: Seq<u8>)
    ensures
        escaped(a + b) == escaped(a) + escaped(b),
    decreases a.len(),
{
    if a.len() == 0 {
        assert(a + b == b);
        assert(escaped(a) + escaped(b) == escaped(b));
    } else {
        assert((a + b)[0] == a[0]);
        assert((a + b).skip(1) == a.skip(1) + b);
        lemma_escaped_concat(a.skip(1), b);
        assert(escape_one(a[0]) + (escaped(a.skip(1)) + escaped(b)) == (escape_one(a[0]) + escaped(
            a.skip(1),
        )) + escaped(b));
    }
}

/// `escaped_len` is the length of `escaped`, between one and two times the
/// length of the data.
pub proof fn lemma_escaped_len(s: Seq<u8>)
    ensures
        escaped(s).len() == escaped_len(s),
        s.len() <= escaped_len(s) <= 2 * s.len(),
    decreases s.len(),
{
    if s.len() > 0 {
        lemma_escaped_len(s.skip(1));
    }
}

/// Escaping adds one byte for each byte of the control range.
pub proof fn lemma_escaped_len_counts_controls(s: Seq<u8>)
    ensures
        escaped(s).len() == s.len() + control_count(s),
    decreases s.len(),
{
    if s.len() > 0 {
        lemma_escaped_len_counts_controls(s.skip(1));
    }
}

/// Unescaping undoes escaping: for every byte sequence `s`,
/// `unescaped(escaped(s))` is `s`.
pub proof fn law_escape_round_trip(s: Seq<u8>)
    ensures
        unescaped(escaped(s)) == Ok::<Seq<u8>, EscapeError>(s),
    decreases s.len(),
{
    if s.len() == 0 {
        assert(s =~= Seq::<u8>::empty());
    } else {
        let b = s[0];
        let tail = escaped(s.skip(1));
        let w = escaped(s);
        law_escape_round_trip(s.skip(1));
        assert(seq![b] + s.skip(1) == s);
        if is_control(b) {
            assert(w == seq![0x8Du8, (b + 0x20) as u8] + tail);
            assert(w.len() >= 2);
            assert(w[0] == 0x8Du8);
            assert(w[1] == (b + 0x20) as u8);
            assert(is_escaped_value(w[1]));
            assert(w.skip(2) == tail);
            assert(((b + 0x20) as u8 - 0x20) as u8 == b);
            assert(unescaped(w) == prepend(b, unescaped(tail)));
        } else {
            assert(w == seq![b] + tail);
            assert(w[0] == b);
            assert(w.skip(1) == tail);
            assert(unescaped(w) == prepend(b, unescaped(tail)));
        }
    }
}

/// The wire form holds no control byte on its own: every byte of
/// 0x8A..=0x8F in it is an escape byte followed by a value of 0xAA..=0xAF.
pub proof fn law_escaped_has_no_bare_control(s: Seq<u8>)
    ensures
        no_bare_control(escaped(s)),
    decreases s.len(),
{
    if s.len() > 0 {
        let b = s[0];
        let tail = escaped(s.skip(1));
        let w = escaped(s);
        law_escaped_has_no_bare_control(s.skip(1));
        if is_control(b) {
            assert(w[0] == 0x8Du8);
            assert(w[1] == (b + 0x20) as u8);
            assert(w.skip(2) == tail);
        } else {
            assert(w[0] == b);
            assert(w.skip(1) == tail);
        }
    }
}

/// SOR and EOR never occur in the wire form of any data.
pub proof fn law_escaped_has_no_frame_marker(s: Seq<u8>, i: int)
    requires
        0 <= i < escaped(s).len(),
    ensures
        escaped(s)[i] != 0x8Eu8,
        escaped(s)[i] != 0x8Fu8,
    decreases s.len(),
{
    if s.len() > 0 {
        let head = escape_one(s[0]);
        if i >= head.len() {
            law_escaped_has_no_frame_marker(s.skip(1), i - head.len());
        }
    }
}

} // verus!
