//! Envelopes for dashboards: sequence numbers, decoder snapshots and
//! decoder events.

use vstd::prelude::*;
use vstd::string::{StrSliceExecFns, StringExecFns};
use crate::contracts::{
    DecoderEventPayloadV1,
    DecoderSnapshotPayloadV1,
    DecoderStatusRowV1,
    LiveChannelV1,
    RaceEventEnvelopeV1,
    RaceEventPayloadV1,
};
use crate::ingest::{is_white_space, same_text, white_space};
use crate::parser::messages::clone_text;

verus! {

/// Seconds between two heartbeats on a subscribed channel.
pub const HEARTBEAT_SECS: u64 = 10;

/// The counter of the envelopes sent on one socket.
#[derive(Debug, Clone, Copy, PartialEq, Eq, Structural)]
pub struct LiveSeq {
    pub next: u64,
}

impl LiveSeq {
    /// A counter whose first number is 1.
    pub fn new() -> (seq: Self)
        ensures
            seq.next == 0,
    {
        LiveSeq { next: 0 }
    }

    /// Hands out the next number: one more than the last.
    pub fn next(&mut self) -> (n: u64)
        requires
            old(self).next < u64::MAX,
        ensures
            n == old(self).next + 1,
            final(self).next == n,
    {
        self.next += 1;
        self.next
    }
}

impl Default for LiveSeq {
    fn default() -> (seq: Self)
        ensures
            seq.next == 0,
    {
        LiveSeq::new()
    }
}

/// A timing loop of a track with the last state its decoder reported, as
/// stored.
#[derive(Debug, PartialEq)]
pub struct DecoderSnapshotRow {
    pub loop_id: String,
    pub loop_name: String,
    pub loop_position: i64,
    pub decoder_id: String,
    pub noise: Option<i64>,
    pub temperature: Option<i64>,
    pub gps_status: Option<i64>,
    pub satellites: Option<i64>,
    pub last_seen: Option<String>,
}

/// A stored row in contract form.
pub open spec fn status_row_v1(row: DecoderSnapshotRow) -> DecoderStatusRowV1 {
    DecoderStatusRowV1 {
        loop_id: row.loop_id,
        loop_name: row.loop_name,
        loop_position: row.loop_position,
        decoder_id: row.decoder_id,
        noise: row.noise,
        temperature: row.temperature,
        gps_status: row.gps_status,
        satellites: row.satellites,
        last_seen: row.last_seen,
    }
}

/// Puts stored rows into the payload of a decoder snapshot; the rows keep
/// their order and every field.
pub fn map_decoder_snapshot_rows(rows: Vec<DecoderSnapshotRow>) -> (payload:
    DecoderSnapshotPayloadV1)
    ensures
        payload.rows@ == rows@.map_values(|row: DecoderSnapshotRow| status_row_v1(row)),
{
    let mut out: Vec<DecoderStatusRowV1> = Vec::new();
    let mut i: usize = 0;
    while i < rows.len()
        invariant
            i <= rows@.len(),
            out@.len() == i,
            forall|k: int| 0 <= k < i ==> out@[k] == status_row_v1(rows@[k]),
        decreases rows@.len() - i,
    {
        let row = &rows[i];
        out.push(
            DecoderStatusRowV1 {
                loop_id: row.loop_id.clone(),
                loop_name: row.loop_name.clone(),
                loop_position: row.loop_position,
                decoder_id: row.decoder_id.clone(),
                noise: row.noise,
                temperature: row.temperature,
                gps_status: row.gps_status,
                satellites: row.satellites,
                last_seen: clone_text(&row.last_seen),
            },
        );
        i += 1;
    }
    assert(out@ =~= rows@.map_values(|row: DecoderSnapshotRow| status_row_v1(row)));
    DecoderSnapshotPayloadV1 { rows: out }
}

/// Takes the decoder message out of a race event envelope; `None` for an
/// envelope that carries any other event.
pub fn map_decoder_event_payload(derived: &RaceEventEnvelopeV1) -> (r: Option<
    DecoderEventPayloadV1,
>)
    ensures
        match derived.payload {
            RaceEventPayloadV1::DecoderMessage { message } => r == Some(
                DecoderEventPayloadV1 { message, source_event_id: derived.source_event_id },
            ),
            _ => r is None,
        },
{
    match &derived.payload {
        RaceEventPayloadV1::DecoderMessage { message } => Some(
            DecoderEventPayloadV1 {
                message: message.clone(),
                source_event_id: derived.source_event_id,
            },
        ),
        _ => None,
    }
}

/// What a dashboard asks for when it connects.
#[derive(Debug, PartialEq)]
pub struct LiveQuery {
    pub track_id: Option<String>,
    pub event_id: Option<String>,
    pub channels: Option<String>,
    pub from: Option<String>,
}

/// A requested channel that is not served.
#[derive(Debug, PartialEq)]
pub struct ChannelIssue {
    pub requested_channel: String,
    pub envelope_channel: LiveChannelV1,
    pub code: &'static str,
    pub message: String,
}

/// The channels a dashboard gets, in the order of `LiveChannelV1` and each
/// once, and the requests that are answered with an error envelope.
#[derive(Debug, PartialEq)]
pub struct ChannelSelection {
    pub supported: Vec<LiveChannelV1>,
    pub issues: Vec<ChannelIssue>,
}

/// A channel issue as a mathematical value.
pub struct IssueModel {
    pub requested_channel: Seq<char>,
    pub envelope_channel: LiveChannelV1,
    pub code: Seq<char>,
    pub message: Seq<char>,
}

impl View for ChannelIssue {
    type V = IssueModel;

    open spec fn view(&self) -> IssueModel {
        IssueModel {
            requested_channel: self.requested_channel@,
            envelope_channel: self.envelope_channel,
            code: self.code@,
            message: self.message@,
        }
    }
}

/// The issues of a vector as mathematical values.
pub open spec fn issue_models(issues: Seq<ChannelIssue>) -> Seq<IssueModel> {
    issues.map_values(|i: ChannelIssue| i@)
}

/// Position of the first comma at or behind `from`; the length of the text
/// where there is none.
pub open spec fn comma_from(s: Seq<char>, from: int) -> int
    decreases s.len() - from,
{
    if from >= s.len() {
        s.len() as int
    } else if s[from] == ',' {
        from
    } else {
        comma_from(s, from + 1)
    }
}

/// Position of the first character in `from..to` that is no white space;
/// `to` where there is none.
pub open spec fn text_start(s: Seq<char>, from: int, to: int) -> int
    decreases to - from,
{
    if from >= to {
        to
    } else if !white_space(s[from]) {
        from
    } else {
        text_start(s, from + 1, to)
    }
}

/// Position behind the last character in `from..to` that is no white
/// space; `from` where there is none.
pub open spec fn text_end(s: Seq<char>, from: int, to: int) -> int
    decreases to - from,
{
    if to <= from {
        from
    } else if !white_space(s[to - 1]) {
        to
    } else {
        text_end(s, from, to - 1)
    }
}

/// The part `from..to` of a text without the white space at its ends.
pub open spec fn trimmed_part(s: Seq<char>, from: int, to: int) -> Seq<char> {
    let start = text_start(s, from, to);
    s.subrange(start, text_end(s, start, to))
}

/// A text without the white space at its ends.
pub open spec fn trimmed_text(s: Seq<char>) -> Seq<char> {
    trimmed_part(s, 0, s.len() as int)
}

/// The issue that a requested channel raises: none for an empty request
/// and for the decoder channel; the race channel is known and not served
/// yet; any other is not supported.
pub open spec fn issue_of(candidate: Seq<char>) -> Option<IssueModel> {
    if candidate.len() == 0 || candidate == "decoder"@ {
        None
    } else if candidate == "race"@ {
        Some(
            IssueModel {
                requested_channel: "race"@,
                envelope_channel: LiveChannelV1::Race,
                code: "unimplemented_channel"@,
                message: "Channel 'race' is recognized but not implemented yet"@,
            },
        )
    } else {
        Some(
            IssueModel {
                requested_channel: candidate,
                envelope_channel: LiveChannelV1::Unknown,
                code: "unsupported_channel"@,
                message: "Channel '"@ + candidate + "' is not supported"@,
            },
        )
    }
}

/// The issues of the requests listed from position `from` on, separated by
/// commas, in the order listed.
pub open spec fn issues_from(s: Seq<char>, from: int) -> Seq<IssueModel>
    decreases s.len() - from,
{
    if from < 0 || from > s.len() {
        Seq::empty()
    } else {
        let end = comma_from(s, from);
        let here = match issue_of(trimmed_part(s, from, end)) {
            Some(issue) => seq![issue],
            None => Seq::empty(),
        };
        if from <= end < s.len() {
            here + issues_from(s, end + 1)
        } else {
            here
        }
    }
}

/// Whether one of the requests listed from position `from` on is the
/// decoder channel.
pub open spec fn asks_decoder_from(s: Seq<char>, from: int) -> bool
    decreases s.len() - from,
{
    if from < 0 || from > s.len() {
        false
    } else {
        let end = comma_from(s, from);
        trimmed_part(s, from, end) == "decoder"@ || (from <= end < s.len() && asks_decoder_from(
            s,
            end + 1,
        ))
    }
}

/// The list of channels asked for; the decoder channel where none is
/// given.
pub open spec fn requested(raw: Option<Seq<char>>) -> Seq<char> {
    match raw {
        Some(s) => s,
        None => "decoder"@,
    }
}

/// Whether the decoder channel is served: when it is asked for, and when
/// nothing is asked for at all.
pub open spec fn serves_decoder(raw: Option<Seq<char>>) -> bool {
    let s = requested(raw);
    asks_decoder_from(s, 0) || raw is None || crate::ingest::blank(s)
}

/// Cuts the white space off both ends of a part of a text.
fn trim_part<'a>(s: &'a str, from: usize, to: usize) -> (r: &'a str)
    requires
        from <= to <= s@.len(),
    ensures
        r@ == trimmed_part(s@, from as int, to as int),
{
    let mut a: usize = from;
    while a < to && is_white_space(s.get_char(a))
        invariant
            from <= a <= to,
            to <= s@.len(),
            text_start(s@, from as int, to as int) == text_start(s@, a as int, to as int),
        decreases to - a,
    {
        a += 1;
    }
    let mut b: usize = to;
    while b > a && is_white_space(s.get_char(b - 1))
        invariant
            a <= b <= to,
            to <= s@.len(),
            text_end(s@, a as int, to as int) == text_end(s@, a as int, b as int),
        decreases b - a,
    {
        b -= 1;
    }
    s.substring_char(a, b)
}

/// Cuts the white space off both ends of a text.
pub fn trim_text(s: &str) -> (r: &str)
    ensures
        r@ == trimmed_text(s@),
{
    let n = s.unicode_len();
    trim_part(s, 0, n)
}

/// Sorts the channels a dashboard asks for, a list separated by commas.
/// Without a list, and with a list of white space only, the decoder channel
/// is served. Of the channels listed, the decoder channel is served, the
/// race channel is answered as not implemented, and any other as not
/// supported; empty entries are passed over.
pub fn classify_channels(raw: Option<&str>) -> (selection: ChannelSelection)
    ensures
        issue_models(selection.issues@) == issues_from(
            requested(
                match raw {
                    Some(s) => Some(s@),
                    None => None,
                },
            ),
            0,
        ),
        selection.issues@.len() == issues_from(
            requested(
                match raw {
                    Some(s) => Some(s@),
                    None => None,
                },
            ),
            0,
        ).len(),
        selection.supported@ == if serves_decoder(
            match raw {
                Some(s) => Some(s@),
                None => None,
            },
        ) {
            seq![LiveChannelV1::Decoder]
        } else {
            Seq::<LiveChannelV1>::empty()
        },
{
    let channels: &str = match raw {
        Some(s) => s,
        None => "decoder",
    };
    let is_defaulted = raw.is_none() || crate::ingest::is_blank(channels);
    let n = channels.unicode_len();
    let ghost text = channels@;
    let mut issues: Vec<ChannelIssue> = Vec::new();
    let mut found_decoder = false;
    let mut start: usize = 0;
    let mut more = true;
    proof {
        assert(issue_models(issues@) + issues_from(text, 0) =~= issues_from(text, 0));
    }
    while more
        invariant
            text == channels@,
            n == text.len(),
            start <= n,
            more ==> issues_from(text, 0) == issue_models(issues@) + issues_from(
                text,
                start as int,
            ),
            more ==> asks_decoder_from(text, 0) == (found_decoder || asks_decoder_from(
                text,
                start as int,
            )),
            !more ==> issues_from(text, 0) == issue_models(issues@),
            !more ==> asks_decoder_from(text, 0) == found_decoder,
        decreases
                if more {
                    n - start + 1
                } else {
                    0
                },
    {
        let mut end: usize = start;
        while end < n && channels.get_char(end) != ','
            invariant
                start <= end <= n,
                text == channels@,
                n == text.len(),
                comma_from(text, start as int) == comma_from(text, end as int),
            decreases n - end,
        {
            end += 1;
        }
        let candidate = trim_part(channels, start, end);
        let ghost before = issue_models(issues@);
        if candidate.unicode_len() == 0 {
        } else if same_text(candidate, "decoder") {
            found_decoder = true;
        } else if same_text(candidate, "race") {
            let issue = ChannelIssue {
                requested_channel: String::from_str("race"),
                envelope_channel: LiveChannelV1::Race,
                code: "unimplemented_channel",
                message: String::from_str("Channel 'race' is recognized but not implemented yet"),
            };
            proof {
                assert(issue@ == issue_of(candidate@)->0);
            }
            issues.push(issue);
            proof {
                assert(issue_models(issues@) =~= before.push(issue@));
            }
        } else {
            let mut message = String::from_str("Channel '");
            message.append(candidate);
            message.append("' is not supported");
            let issue = ChannelIssue {
                requested_channel: String::from_str(candidate),
                envelope_channel: LiveChannelV1::Unknown,
                code: "unsupported_channel",
                message,
            };
            proof {
                assert(issue@.message =~= "Channel '"@ + candidate@ + "' is not supported"@);
                assert(issue@ == issue_of(candidate@)->0);
            }
            issues.push(issue);
            proof {
                assert(issue_models(issues@) =~= before.push(issue@));
            }
        }
        proof {
            let here = match issue_of(candidate@) {
                Some(issue) => seq![issue],
                None => Seq::<IssueModel>::empty(),
            };
            assert(issue_models(issues@) =~= before + here);
            if end < n {
                assert(before + (here + issues_from(text, end + 1)) =~= (before + here)
                    + issues_from(text, end + 1));
            }
            reveal_strlit("decoder");
        }
        if end < n {
            start = end + 1;
        } else {
            more = false;
        }
    }
    let mut supported: Vec<LiveChannelV1> = Vec::new();
    if found_decoder || is_defaulted {
        supported.push(LiveChannelV1::Decoder);
    }
    assert(supported@ =~= if found_decoder || is_defaulted {
        seq![LiveChannelV1::Decoder]
    } else {
        Seq::<LiveChannelV1>::empty()
    });
    assert(issue_models(issues@).len() == issues@.len());
    ChannelSelection { supported, issues }
}

/// The track id that a query names, without white space at its ends.
pub open spec fn query_track_id(query: LiveQuery) -> Seq<char> {
    match query.track_id {
        Some(id) => trimmed_text(id@),
        None => Seq::empty(),
    }
}

/// The fault of a query, as the text of the error: the track id is
/// required, and only a start at "now" is served.
pub open spec fn query_fault(query: LiveQuery) -> Option<Seq<char>> {
    if query_track_id(query).len() == 0 {
        Some("track_id query parameter is required"@)
    } else if query.from matches Some(from) && from@ != "now"@ {
        Some("from must be 'now' for /ws/v1/live"@)
    } else {
        None
    }
}

/// Checks the query of a dashboard and hands out the track id it names,
/// or the text of the error to answer with.
pub fn validate_live_query(query: &LiveQuery) -> (r: Result<String, String>)
    ensures
        match r {
            Ok(track_id) => query_fault(*query) is None && track_id@ == query_track_id(*query),
            Err(text) => query_fault(*query) == Some(text@),
        },
{
    let track_id = match &query.track_id {
        Some(id) => String::from_str(trim_text(id.as_str())),
        None => String::new(),
    };
    if track_id.as_str().unicode_len() == 0 {
        return Err(String::from_str("track_id query parameter is required"));
    }
    match &query.from {
        Some(from) => {
            if !same_text(from.as_str(), "now") {
                return Err(String::from_str("from must be 'now' for /ws/v1/live"));
            }
        },
        None => {},
    }
    Ok(track_id)
}

} // verus!
