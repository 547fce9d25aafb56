//! The audit trace: its events, their canonical text form, and the signed
//! export. The canonical form is rendered and read back by verified code, so
//! that loading a saved trace provably returns the trace that was saved.

use vstd::prelude::*;
use vstd::string::StringExecFns;
use crate::textenc::{
    dec_digits, escape_string, expect_lit, is_digit, lemma_scan_string_inverts,
    lemma_scan_u64_inverts, lemma_starts_with_concat, push_dec_digits, push_escaped, scan_string,
    scan_u64, spec_scan_string, spec_scan_u64, starts_with, str_chars, str_eq,
};
use crate::crypto::{base64_encode, base64_std_of};
use crate::jsonval::{parse_trace_doc, trace_doc_of};

verus! {

/// The coarse kind of a trace event: a capability check that was evaluated,
/// or one that could not be evaluated at all.
#[derive(Debug, Clone, Copy, PartialEq, Eq, Structural)]
pub enum EventType {
    CapCall,
    CapError,
}

/// The closed set of reasons an enforcement step can fail.
#[derive(Debug, Clone, Copy, PartialEq, Eq, Structural)]
pub enum CapEventSubtype {
    InvalidPath,
    NoFsCapability,
    NoReadPatterns,
    GlobMismatch,
    InvalidGlob,
}

impl EventType {
    /// The wire name of the event type.
    pub open spec fn spec_str(self) -> Seq<char> {
        match self {
            EventType::CapCall => "cap.call"@,
            EventType::CapError => "cap.error"@,
        }
    }

    pub fn as_str(&self) -> (r: &'static str)
        ensures
            r@ == self.spec_str(),
    {
        match *self {
            EventType::CapCall => "cap.call",
            EventType::CapError => "cap.error",
        }
    }

    pub open spec fn spec_of_str(s: Seq<char>) -> Option<EventType> {
        if s == "cap.call"@ {
            Some(EventType::CapCall)
        } else if s == "cap.error"@ {
            Some(EventType::CapError)
        } else {
            None
        }
    }

    pub fn from_str(s: &str) -> (r: Option<EventType>)
        ensures
            r == EventType::spec_of_str(s@),
    {
        if str_eq(s, "cap.call") {
            Some(EventType::CapCall)
        } else if str_eq(s, "cap.error") {
            Some(EventType::CapError)
        } else {
            None
        }
    }
}

impl CapEventSubtype {
    /// The reason code written into an error event's `input` field.
    pub open spec fn spec_str(self) -> Seq<char> {
        match self {
            CapEventSubtype::InvalidPath => "invalid_path"@,
            CapEventSubtype::NoFsCapability => "no_fs_capability"@,
            CapEventSubtype::NoReadPatterns => "no_read_patterns"@,
            CapEventSubtype::GlobMismatch => "glob_mismatch"@,
            CapEventSubtype::InvalidGlob => "invalid_glob"@,
        }
    }

    pub fn as_str(&self) -> (r: &'static str)
        ensures
            r@ == self.spec_str(),
    {
        match *self {
            CapEventSubtype::InvalidPath => "invalid_path",
            CapEventSubtype::NoFsCapability => "no_fs_capability",
            CapEventSubtype::NoReadPatterns => "no_read_patterns",
            CapEventSubtype::GlobMismatch => "glob_mismatch",
            CapEventSubtype::InvalidGlob => "invalid_glob",
        }
    }

    pub open spec fn spec_of_str(s: Seq<char>) -> Option<CapEventSubtype> {
        if s == "invalid_path"@ {
            Some(CapEventSubtype::InvalidPath)
        } else if s == "no_fs_capability"@ {
            Some(CapEventSubtype::NoFsCapability)
        } else if s == "no_read_patterns"@ {
            Some(CapEventSubtype::NoReadPatterns)
        } else if s == "glob_mismatch"@ {
            Some(CapEventSubtype::GlobMismatch)
        } else if s == "invalid_glob"@ {
            Some(CapEventSubtype::InvalidGlob)
        } else {
            None
        }
    }

    pub fn from_str(s: &str) -> (r: Option<CapEventSubtype>)
        ensures
            r == CapEventSubtype::spec_of_str(s@),
    {
        if str_eq(s, "invalid_path") {
            Some(CapEventSubtype::InvalidPath)
        } else if str_eq(s, "no_fs_capability") {
            Some(CapEventSubtype::NoFsCapability)
        } else if str_eq(s, "no_read_patterns") {
            Some(CapEventSubtype::NoReadPatterns)
        } else if str_eq(s, "glob_mismatch") {
            Some(CapEventSubtype::GlobMismatch)
        } else if str_eq(s, "invalid_glob") {
            Some(CapEventSubtype::InvalidGlob)
        } else {
            None
        }
    }

    /// The one conversion rule from a failure reason to the coarse event
    /// kind: a glob mismatch is an evaluated check, everything else could not
    /// be evaluated.
    pub open spec fn spec_event_type(self) -> EventType {
        match self {
            CapEventSubtype::GlobMismatch => EventType::CapCall,
            _ => EventType::CapError,
        }
    }

    pub fn event_type(&self) -> (r: EventType)
        ensures
            r == self.spec_event_type(),
    {
        match *self {
            CapEventSubtype::GlobMismatch => EventType::CapCall,
            _ => EventType::CapError,
        }
    }
}

/// One enforcement decision, immutable once appended.
#[derive(Debug, Clone, PartialEq, Eq)]
pub struct TraceEvent {
    pub run_id: String,
    pub seq: u64,
    pub event_type: EventType,
    pub input: String,
    pub outcome: bool,
    pub ts_seed: u64,
}

/// The mathematical shadow of a `TraceEvent`.
pub ghost struct TraceEventV {
    pub run_id: Seq<char>,
    pub seq: u64,
    pub event_type: EventType,
    pub input: Seq<char>,
    pub outcome: bool,
    pub ts_seed: u64,
}

impl View for TraceEvent {
    type V = TraceEventV;

    open spec fn view(&self) -> TraceEventV {
        TraceEventV {
            run_id: self.run_id@,
            seq: self.seq,
            event_type: self.event_type,
            input: self.input@,
            outcome: self.outcome,
            ts_seed: self.ts_seed,
        }
    }
}

/// The views of a sequence of events.
pub open spec fn trace_views(t: Seq<TraceEvent>) -> Seq<TraceEventV> {
    t.map_values(|e: TraceEvent| e@)
}

/// One event as a trace document carries it: the six fields at their wire
/// types, the event kind still a string. What a document deserializes to is
/// named over this form; `trace_from_raw` finishes the job in verified code.
#[derive(Debug, Clone, PartialEq, Eq)]
pub struct RawTraceEvent {
    pub run_id: String,
    pub seq: u64,
    pub event_type: String,
    pub input: String,
    pub outcome: bool,
    pub ts_seed: u64,
}

/// The mathematical shadow of a `RawTraceEvent`.
pub ghost struct RawEventV {
    pub run_id: Seq<char>,
    pub seq: u64,
    pub event_type: Seq<char>,
    pub input: Seq<char>,
    pub outcome: bool,
    pub ts_seed: u64,
}

impl View for RawTraceEvent {
    type V = RawEventV;

    open spec fn view(&self) -> RawEventV {
        RawEventV {
            run_id: self.run_id@,
            seq: self.seq,
            event_type: self.event_type@,
            input: self.input@,
            outcome: self.outcome,
            ts_seed: self.ts_seed,
        }
    }
}

/// The views of a sequence of raw events.
pub open spec fn raw_views(t: Seq<RawTraceEvent>) -> Seq<RawEventV> {
    t.map_values(|e: RawTraceEvent| e@)
}

/// The exported, tamper-evident artifact: the trace's text at signing time,
/// bound to the run and the policy fingerprint, with a detached signature.
#[derive(Debug, Clone)]
pub struct SignedTrace {
    pub run_id: String,
    pub manifest_hash: String,
    pub trace_json: String,
    pub signature: String,
}

impl SignedTrace {
    /// Packages a signed trace, encoding the raw signature bytes as base64.
    pub fn new(run_id: String, manifest_hash: String, trace_json: String, signature: Vec<u8>) -> (r:
        SignedTrace)
        requires
            signature@.len() <= 0x1000_0000_0000_0000,
        ensures
            r.run_id == run_id,
            r.manifest_hash == manifest_hash,
            r.trace_json == trace_json,
            r.signature@ == base64_std_of(signature@),
            r.signature@.len() == 4 * ((signature@.len() + 2) / 3),
    {
        let signature = base64_encode(&signature);
        SignedTrace { run_id, manifest_hash, trace_json, signature }
    }
}

/// Errors from trace serialization and persistence.
#[derive(Debug)]
pub enum TraceError {
    /// The text is not a canonical trace rendering.
    Serialize(String),
    /// An I/O failure reported by the surrounding runtime.
    Io(String),
}

// ---------------------------------------------------------------------------
// The canonical text form
// ---------------------------------------------------------------------------

/// The canonical text of one event: a pretty-printed object with the six
/// fields in a fixed order, strings escaped. Each quoted string's closing
/// quote stands as a piece of its own, mirroring how scanning consumes it.
pub open spec fn render_event(e: TraceEventV) -> Seq<char> {
    "  {\n    \"run_id\": \""@ + escape_string(e.run_id) + "\""@ + ",\n    \"seq\": "@
        + dec_digits(e.seq as nat) + ",\n    \"event_type\": \""@ + escape_string(
        e.event_type.spec_str(),
    ) + "\""@ + ",\n    \"input\": \""@ + escape_string(e.input) + "\""@ + ",\n    \"outcome\": "@
        + (if e.outcome {
        "true"@
    } else {
        "false"@
    }) + ",\n    \"ts_seed\": "@ + dec_digits(e.ts_seed as nat) + "\n  }"@
}

/// The canonical text of a non-empty event list: the events in order,
/// separated by `",\n"`.
pub open spec fn render_events_rec(es: Seq<TraceEventV>) -> Seq<char>
    decreases es.len(),
{
    if es.len() <= 1 {
        if es.len() == 0 {
            Seq::empty()
        } else {
            render_event(es[0])
        }
    } else {
        render_event(es[0]) + ",\n"@ + render_events_rec(es.drop_first())
    }
}

/// The canonical text of a whole trace: a pretty-printed array.
pub open spec fn render_trace(es: Seq<TraceEventV>) -> Seq<char> {
    if es.len() == 0 {
        "[]"@
    } else {
        "[\n"@ + render_events_rec(es) + "\n]"@
    }
}

/// Appends the canonical text of one event.
fn push_event_json(out: &mut String, e: &TraceEvent)
    ensures
        final(out)@ == old(out)@ + render_event(e@),
{
    out.append("  {\n    \"run_id\": \"");
    push_escaped(out, e.run_id.as_str());
    out.append("\"");
    out.append(",\n    \"seq\": ");
    push_dec_digits(out, e.seq);
    out.append(",\n    \"event_type\": \"");
    push_escaped(out, e.event_type.as_str());
    out.append("\"");
    out.append(",\n    \"input\": \"");
    push_escaped(out, e.input.as_str());
    out.append("\"");
    out.append(",\n    \"outcome\": ");
    if e.outcome {
        out.append("true");
    } else {
        out.append("false");
    }
    out.append(",\n    \"ts_seed\": ");
    push_dec_digits(out, e.ts_seed);
    out.append("\n  }");
    proof {
        assert(out@ =~= old(out)@ + render_event(e@));
    }
}

/// Appending one more event to a non-empty list appends a separator and the
/// event's text.
proof fn lemma_render_events_push(es: Seq<TraceEventV>, e: TraceEventV)
    requires
        es.len() >= 1,
    ensures
        render_events_rec(es.push(e)) == render_events_rec(es) + ",\n"@ + render_event(e),
    decreases es.len(),
{
    if es.len() == 1 {
        assert(es.push(e).drop_first() =~= seq![e]);
        assert(render_events_rec(seq![e]) == render_event(e));
        assert(es.push(e)[0] == es[0]);
    } else {
        lemma_render_events_push(es.drop_first(), e);
        assert(es.push(e).drop_first() =~= es.drop_first().push(e));
        assert(es.push(e)[0] == es[0]);
        assert(render_event(es[0]) + ",\n"@ + (render_events_rec(es.drop_first()) + ",\n"@
            + render_event(e)) =~= (render_event(es[0]) + ",\n"@ + render_events_rec(
            es.drop_first(),
        )) + ",\n"@ + render_event(e));
    }
}

/// Serializes a trace to its canonical pretty-printed text.
pub fn finalize_trace(trace: &Vec<TraceEvent>) -> (r: String)
    ensures
        r@ == render_trace(trace_views(trace@)),
{
    let ghost views = trace_views(trace@);
    let n = trace.len();
    if n == 0 {
        return String::from_str("[]");
    }
    let mut out = String::new();
    out.append("[\n");
    push_event_json(&mut out, &trace[0]);
    proof {
        assert(views.take(1) =~= seq![views[0]]);
        assert(render_events_rec(seq![views[0]]) == render_event(views[0]));
        assert(out@ =~= "[\n"@ + render_events_rec(views.take(1)));
    }
    let mut i: usize = 1;
    while i < n
        invariant
            1 <= i <= n,
            n == trace@.len(),
            views == trace_views(trace@),
            out@ == "[\n"@ + render_events_rec(views.take(i as int)),
        decreases n - i,
    {
        out.append(",\n");
        push_event_json(&mut out, &trace[i]);
        proof {
            lemma_render_events_push(views.take(i as int), views[i as int]);
            assert(views.take(i + 1) =~= views.take(i as int).push(views[i as int]));
            assert(out@ =~= "[\n"@ + render_events_rec(views.take(i + 1)));
        }
        i = i + 1;
    }
    out.append("\n]");
    proof {
        assert(views.take(n as int) =~= views);
        assert(out@ =~= render_trace(views));
    }
    out
}

// ---------------------------------------------------------------------------
// Reading the canonical text form back
// ---------------------------------------------------------------------------

/// Parses one event of the canonical text form from the front of `s`,
/// yielding the event and what follows its closing brace.
pub open spec fn spec_parse_event(s: Seq<char>) -> Option<(TraceEventV, Seq<char>)> {
    if !starts_with(s, "  {\n    \"run_id\": \""@) {
        None
    } else {
        let s1 = s.skip("  {\n    \"run_id\": \""@.len() as int);
        match spec_scan_string(s1) {
            None => None,
            Some((run_id, s2)) => if !starts_with(s2, ",\n    \"seq\": "@) {
                None
            } else {
                let s3 = s2.skip(",\n    \"seq\": "@.len() as int);
                match spec_scan_u64(s3) {
                    None => None,
                    Some((seqn, s4)) => if !starts_with(s4, ",\n    \"event_type\": \""@) {
                        None
                    } else {
                        let s5 = s4.skip(",\n    \"event_type\": \""@.len() as int);
                        match spec_scan_string(s5) {
                            None => None,
                            Some((tname, s6)) => match EventType::spec_of_str(tname) {
                                None => None,
                                Some(et) => if !starts_with(s6, ",\n    \"input\": \""@) {
                                    None
                                } else {
                                    let s7 = s6.skip(",\n    \"input\": \""@.len() as int);
                                    match spec_scan_string(s7) {
                                        None => None,
                                        Some((input, s8)) => if !starts_with(
                                            s8,
                                            ",\n    \"outcome\": "@,
                                        ) {
                                            None
                                        } else {
                                            let s9 = s8.skip(",\n    \"outcome\": "@.len() as int);
                                            let ob = if starts_with(s9, "true"@) {
                                                Some((true, s9.skip("true"@.len() as int)))
                                            } else if starts_with(s9, "false"@) {
                                                Some((false, s9.skip("false"@.len() as int)))
                                            } else {
                                                None
                                            };
                                            match ob {
                                                None => None,
                                                Some((outcome, s10)) => if !starts_with(
                                                    s10,
                                                    ",\n    \"ts_seed\": "@,
                                                ) {
                                                    None
                                                } else {
                                                    let s11 = s10.skip(
                                                        ",\n    \"ts_seed\": "@.len() as int,
                                                    );
                                                    match spec_scan_u64(s11) {
                                                        None => None,
                                                        Some((ts, s12)) => if !starts_with(
                                                            s12,
                                                            "\n  }"@,
                                                        ) {
                                                            None
                                                        } else {
                                                            Some(
                                                                (
                                                                    TraceEventV {
                                                                        run_id,
                                                                        seq: seqn,
                                                                        event_type: et,
                                                                        input,
                                                                        outcome,
                                                                        ts_seed: ts,
                                                                    },
                                                                    s12.skip("\n  }"@.len() as int),
                                                                ),
                                                            )
                                                        },
                                                    }
                                                },
                                            }
                                        },
                                    }
                                },
                            },
                        }
                    },
                }
            },
        }
    }
}

/// Parses a `",\n"`-separated run of events from the front of `s`.
pub open spec fn spec_parse_events_rec(s: Seq<char>) -> Option<(Seq<TraceEventV>, Seq<char>)>
    decreases s.len(),
{
    match spec_parse_event(s) {
        None => None,
        Some((e, rest)) => if starts_with(rest, ",\n"@) && rest.skip(2).len() < s.len() {
            match spec_parse_events_rec(rest.skip(2)) {
                Some((es, r2)) => Some((seq![e] + es, r2)),
                None => None,
            }
        } else {
            Some((seq![e], rest))
        },
    }
}

/// Parses a whole canonical trace text: the empty array, or a bracketed,
/// separated run of events consuming the entire text.
pub open spec fn spec_parse_trace(s: Seq<char>) -> Option<Seq<TraceEventV>> {
    if s == "[]"@ {
        Some(Seq::empty())
    } else if starts_with(s, "[\n"@) {
        match spec_parse_events_rec(s.skip("[\n"@.len() as int)) {
            Some((es, rest)) => if rest == "\n]"@ {
                Some(es)
            } else {
                None
            },
            None => None,
        }
    } else {
        None
    }
}

/// Parsing inverts rendering for one event, whatever follows it.
#[verifier::rlimit(100)]
#[verifier::spinoff_prover]
pub proof fn lemma_parse_event_inverts(e: TraceEventV, rest: Seq<char>)
    ensures
        spec_parse_event(render_event(e) + rest) == Some((e, rest)),
{
    reveal_strlit("  {\n    \"run_id\": \"");
    reveal_strlit("\"");
    reveal_strlit(",\n    \"seq\": ");
    reveal_strlit(",\n    \"event_type\": \"");
    reveal_strlit(",\n    \"input\": \"");
    reveal_strlit(",\n    \"outcome\": ");
    reveal_strlit(",\n    \"ts_seed\": ");
    reveal_strlit("\n  }");
    reveal_strlit("true");
    reveal_strlit("false");
    reveal_strlit("cap.call");
    reveal_strlit("cap.error");
    let s = render_event(e) + rest;
    let tstr = e.event_type.spec_str();
    let bstr: Seq<char> = if e.outcome {
        "true"@
    } else {
        "false"@
    };
    let t6 = "\n  }"@ + rest;
    let t5d = dec_digits(e.ts_seed as nat) + t6;
    let t5 = ",\n    \"ts_seed\": "@ + t5d;
    let t4b = bstr + t5;
    let t4 = ",\n    \"outcome\": "@ + t4b;
    let t3q = escape_string(e.input) + seq!['"'] + t4;
    let t3 = ",\n    \"input\": \""@ + t3q;
    let t2q = escape_string(tstr) + seq!['"'] + t3;
    let t2 = ",\n    \"event_type\": \""@ + t2q;
    let t1d = dec_digits(e.seq as nat) + t2;
    let t1 = ",\n    \"seq\": "@ + t1d;
    let t0q = escape_string(e.run_id) + seq!['"'] + t1;
    assert(("\""@) =~= seq!['"']);
    assert(s =~= "  {\n    \"run_id\": \""@ + t0q);
    lemma_starts_with_concat("  {\n    \"run_id\": \""@, t0q);
    lemma_scan_string_inverts(e.run_id, t1);
    lemma_starts_with_concat(",\n    \"seq\": "@, t1d);
    assert(!is_digit(t2[0]));
    lemma_scan_u64_inverts(e.seq, t2);
    lemma_starts_with_concat(",\n    \"event_type\": \""@, t2q);
    lemma_scan_string_inverts(tstr, t3);
    if e.event_type == EventType::CapCall {
        assert(EventType::spec_of_str(tstr) == Some(EventType::CapCall));
    } else {
        assert(tstr.len() == 9);
        assert(("cap.call"@).len() == 8);
        assert(EventType::spec_of_str(tstr) == Some(EventType::CapError));
    }
    lemma_starts_with_concat(",\n    \"input\": \""@, t3q);
    lemma_scan_string_inverts(e.input, t4);
    lemma_starts_with_concat(",\n    \"outcome\": "@, t4b);
    if e.outcome {
        lemma_starts_with_concat("true"@, t5);
    } else {
        lemma_starts_with_concat("false"@, t5);
        if starts_with(t4b, "true"@) {
            assert(t4b.subrange(0, 4)[0] == t4b[0]);
            assert(false);
        }
    }
    lemma_starts_with_concat(",\n    \"ts_seed\": "@, t5d);
    assert(!is_digit(t6[0]));
    lemma_scan_u64_inverts(e.ts_seed, t6);
    lemma_starts_with_concat("\n  }"@, rest);
}

/// Parsing inverts rendering for a non-empty run of events, as long as what
/// follows cannot be mistaken for another separator.
#[verifier::rlimit(100)]
#[verifier::spinoff_prover]
pub proof fn lemma_parse_events_inverts(es: Seq<TraceEventV>, rest: Seq<char>)
    requires
        es.len() >= 1,
        rest.len() == 0 || rest[0] != ',',
    ensures
        spec_parse_events_rec(render_events_rec(es) + rest) == Some((es, rest)),
    decreases es.len(),
{
    reveal_strlit(",\n");
    let s = render_events_rec(es) + rest;
    if es.len() == 1 {
        lemma_parse_event_inverts(es[0], rest);
        if starts_with(rest, ",\n"@) {
            assert(rest.subrange(0, 2)[0] == rest[0]);
            assert(false);
        }
        assert(seq![es[0]] =~= es);
    } else {
        let inner = render_events_rec(es.drop_first()) + rest;
        let tail = ",\n"@ + inner;
        assert(s =~= render_event(es[0]) + tail);
        lemma_parse_event_inverts(es[0], tail);
        lemma_starts_with_concat(",\n"@, inner);
        assert(render_event(es[0]).len() > 0) by {
            reveal_strlit("  {\n    \"run_id\": \"");
        }
        lemma_parse_events_inverts(es.drop_first(), rest);
        assert(tail.skip(2) == inner);
        assert(seq![es[0]] + es.drop_first() =~= es);
    }
}

/// Round trip: parsing the canonical rendering of any trace returns exactly
/// that trace, whatever its length.
pub proof fn lemma_trace_round_trip(es: Seq<TraceEventV>)
    ensures
        spec_parse_trace(render_trace(es)) == Some(es),
{
    reveal_strlit("[]");
    reveal_strlit("[\n");
    reveal_strlit("\n]");
    if es.len() == 0 {
        assert(Seq::<TraceEventV>::empty() =~= es);
    } else {
        let body = render_events_rec(es);
        let s = render_trace(es);
        assert(s == "[\n"@ + body + "\n]"@);
        assert(s =~= "[\n"@ + (body + "\n]"@));
        lemma_starts_with_concat("[\n"@, body + "\n]"@);
        assert(s.len() >= 4);
        assert(s != "[]"@);
        lemma_parse_events_inverts(es, "\n]"@);
    }
}

/// Parses one event at `pos`, implementing `spec_parse_event` on the
/// remainder of `chars`.
fn parse_event(chars: &Vec<char>, pos: usize) -> (r: Option<(TraceEvent, usize)>)
    requires
        pos <= chars@.len(),
    ensures
        match r {
            Some((ev, end)) => {
                &&& pos < end <= chars@.len()
                &&& spec_parse_event(chars@.skip(pos as int)) == Some(
                    (ev@, chars@.skip(end as int)),
                )
            },
            None => spec_parse_event(chars@.skip(pos as int)) is None,
        },
{
    let ghost s = chars@.skip(pos as int);
    let p1 = match expect_lit(chars, pos, "  {\n    \"run_id\": \"") {
        Some(p) => p,
        None => { return None; },
    };
    proof {
        reveal_strlit("  {\n    \"run_id\": \"");
        assert(chars@.skip(p1 as int) =~= s.skip("  {\n    \"run_id\": \""@.len() as int));
    }
    let (run_id, p2) = match scan_string(chars, p1) {
        Some(x) => x,
        None => { return None; },
    };
    let p3 = match expect_lit(chars, p2, ",\n    \"seq\": ") {
        Some(p) => p,
        None => { return None; },
    };
    proof {
        assert(chars@.skip(p3 as int) =~= chars@.skip(p2 as int).skip(
            ",\n    \"seq\": "@.len() as int,
        ));
    }
    let (seqn, p4) = match scan_u64(chars, p3) {
        Some(x) => x,
        None => { return None; },
    };
    let p5 = match expect_lit(chars, p4, ",\n    \"event_type\": \"") {
        Some(p) => p,
        None => { return None; },
    };
    proof {
        assert(chars@.skip(p5 as int) =~= chars@.skip(p4 as int).skip(
            ",\n    \"event_type\": \""@.len() as int,
        ));
    }
    let (tname, p6) = match scan_string(chars, p5) {
        Some(x) => x,
        None => { return None; },
    };
    let et = match EventType::from_str(tname.as_str()) {
        Some(t) => t,
        None => { return None; },
    };
    let p7 = match expect_lit(chars, p6, ",\n    \"input\": \"") {
        Some(p) => p,
        None => { return None; },
    };
    proof {
        assert(chars@.skip(p7 as int) =~= chars@.skip(p6 as int).skip(
            ",\n    \"input\": \""@.len() as int,
        ));
    }
    let (input, p8) = match scan_string(chars, p7) {
        Some(x) => x,
        None => { return None; },
    };
    let p9 = match expect_lit(chars, p8, ",\n    \"outcome\": ") {
        Some(p) => p,
        None => { return None; },
    };
    proof {
        assert(chars@.skip(p9 as int) =~= chars@.skip(p8 as int).skip(
            ",\n    \"outcome\": "@.len() as int,
        ));
    }
    let (outcome, p10) = match expect_lit(chars, p9, "true") {
        Some(p) => {
            proof {
                assert(chars@.skip(p as int) =~= chars@.skip(p9 as int).skip(
                    "true"@.len() as int,
                ));
            }
            (true, p)
        },
        None => match expect_lit(chars, p9, "false") {
            Some(p) => {
                proof {
                    assert(chars@.skip(p as int) =~= chars@.skip(p9 as int).skip(
                        "false"@.len() as int,
                    ));
                }
                (false, p)
            },
            None => { return None; },
        },
    };
    let p11 = match expect_lit(chars, p10, ",\n    \"ts_seed\": ") {
        Some(p) => p,
        None => { return None; },
    };
    proof {
        assert(chars@.skip(p11 as int) =~= chars@.skip(p10 as int).skip(
            ",\n    \"ts_seed\": "@.len() as int,
        ));
    }
    let (ts, p12) = match scan_u64(chars, p11) {
        Some(x) => x,
        None => { return None; },
    };
    let end = match expect_lit(chars, p12, "\n  }") {
        Some(p) => p,
        None => { return None; },
    };
    proof {
        assert(chars@.skip(end as int) =~= chars@.skip(p12 as int).skip("\n  }"@.len() as int));
    }
    let ev = TraceEvent { run_id, seq: seqn, event_type: et, input, outcome, ts_seed: ts };
    Some((ev, end))
}

/// Reads back exactly the canonical layout `finalize_trace` writes,
/// inverting it; the loader's general entry point is `load_trace`, which
/// falls back to JSON-level reading for any other text.
fn parse_canonical(json: &str) -> (r: Result<Vec<TraceEvent>, TraceError>)
    ensures
        match r {
            Ok(events) => spec_parse_trace(json@) == Some(trace_views(events@)),
            Err(_) => spec_parse_trace(json@) is None,
        },
{
    let chars = str_chars(json);
    let ghost s = json@;
    let n = chars.len();
    proof {
        reveal_strlit("[]");
        assert(chars@.skip(0) =~= chars@);
    }
    if n == 2 {
        if let Some(_) = expect_lit(&chars, 0, "[]") {
            proof {
                assert(s =~= "[]"@);
                assert(trace_views(Seq::<TraceEvent>::empty()) =~= Seq::<TraceEventV>::empty());
            }
            let events: Vec<TraceEvent> = Vec::new();
            proof {
                assert(events@ =~= Seq::<TraceEvent>::empty());
            }
            return Ok(events);
        }
    }
    let start = match expect_lit(&chars, 0, "[\n") {
        Some(p) => p,
        None => {
            proof {
                if s == "[]"@ {
                    assert(starts_with(chars@.skip(0), "[]"@));
                }
            }
            return Err(TraceError::Serialize(String::from_str(
                "not a canonical trace rendering",
            )));
        },
    };
    proof {
        reveal_strlit("[\n");
        if s == "[]"@ {
            assert(s[1] == ']');
            assert(chars@.skip(0).subrange(0, 2) == "[\n"@);
            assert(s[1] == '\n');
        }
        assert(chars@.skip(start as int) =~= chars@.skip(0).skip("[\n"@.len() as int));
    }
    let mut events: Vec<TraceEvent> = Vec::new();
    let mut i = start;
    proof {
        assert(trace_views(events@) =~= Seq::<TraceEventV>::empty());
    }
    loop
        invariant
            start <= i <= n,
            n == chars@.len(),
            chars@ == s,
            s == json@,
            start == 2,
            spec_parse_trace(s) == (match spec_parse_events_rec(chars@.skip(i as int)) {
                Some((es, rest)) => if rest == "\n]"@ {
                    Some(trace_views(events@) + es)
                } else {
                    None::<Seq<TraceEventV>>
                },
                None => None::<Seq<TraceEventV>>,
            }),
        decreases n - i,
    {
        let (ev, end) = match parse_event(&chars, i) {
            Some(x) => x,
            None => {
                proof {
                    assert(spec_parse_events_rec(chars@.skip(i as int)) is None);
                    assert(spec_parse_trace(s) is None);
                }
                return Err(TraceError::Serialize(String::from_str(
                    "not a canonical trace rendering",
                )));
            },
        };
        let ghost prev_views = trace_views(events@);
        events.push(ev);
        proof {
            assert(trace_views(events@) =~= prev_views.push(ev@));
        }
        match expect_lit(&chars, end, ",\n") {
            Some(next) => {
                proof {
                    reveal_strlit(",\n");
                    assert(chars@.skip(next as int) =~= chars@.skip(end as int).skip(2));
                    assert(chars@.skip(end as int).skip(2).len() < chars@.skip(i as int).len());
                    if let Some((es, rest)) = spec_parse_events_rec(chars@.skip(next as int)) {
                        assert(prev_views + (seq![ev@] + es) =~= trace_views(events@) + es);
                    }
                }
                i = next;
            },
            None => {
                // the run of events ends here; the closing bracket must
                // consume the rest of the text
                proof {
                    reveal_strlit(",\n");
                    assert(spec_parse_events_rec(chars@.skip(i as int)) == Some(
                        (seq![ev@], chars@.skip(end as int)),
                    ));
                    assert(prev_views + seq![ev@] =~= trace_views(events@));
                }
                let fin = match expect_lit(&chars, end, "\n]") {
                    Some(p) => p,
                    None => {
                        proof {
                            reveal_strlit("\n]");
                            if chars@.skip(end as int) == "\n]"@ {
                                assert(chars@.skip(end as int).subrange(0, 2) =~= "\n]"@);
                                assert(starts_with(chars@.skip(end as int), "\n]"@));
                            }
                            assert(chars@.skip(end as int) != "\n]"@);
                            assert(spec_parse_trace(s) is None);
                        }
                        return Err(TraceError::Serialize(String::from_str(
                            "not a canonical trace rendering",
                        )));
                    },
                };
                if fin == n {
                    proof {
                        reveal_strlit("\n]");
                        assert(chars@.skip(end as int) =~= "\n]"@);
                        assert(spec_parse_trace(s) == Some(trace_views(events@)));
                    }
                    return Ok(events);
                } else {
                    proof {
                        reveal_strlit("\n]");
                        if chars@.skip(end as int) == "\n]"@ {
                            assert(chars@.skip(end as int).len() == 2);
                        }
                        assert(chars@.skip(end as int) != "\n]"@);
                        assert(spec_parse_trace(s) is None);
                    }
                    return Err(TraceError::Serialize(String::from_str(
                        "not a canonical trace rendering",
                    )));
                }
            },
        }
    }
}

/// The event a raw document event stands for: its kind decoded from the
/// wire name, everything else carried over; nothing, if the kind is unknown.
pub open spec fn spec_event_of_raw(d: RawEventV) -> Option<TraceEventV> {
    match EventType::spec_of_str(d.event_type) {
        Some(et) => Some(
            TraceEventV {
                run_id: d.run_id,
                seq: d.seq,
                event_type: et,
                input: d.input,
                outcome: d.outcome,
                ts_seed: d.ts_seed,
            },
        ),
        None => None,
    }
}

/// The events a raw document array stands for, if every kind is known.
pub open spec fn spec_events_of_raw(ds: Seq<RawEventV>) -> Option<Seq<TraceEventV>>
    decreases ds.len(),
{
    if ds.len() == 0 {
        Some(Seq::empty())
    } else {
        match (spec_event_of_raw(ds[0]), spec_events_of_raw(ds.drop_first())) {
            (Some(e), Some(es)) => Some(seq![e] + es),
            _ => None,
        }
    }
}

/// Decodes a deserialized event array into trace events, failing exactly
/// when some event carries an unknown kind.
pub fn trace_from_raw(raw: Vec<RawTraceEvent>) -> (r: Result<Vec<TraceEvent>, TraceError>)
    ensures
        match r {
            Ok(events) => spec_events_of_raw(raw_views(raw@)) == Some(trace_views(events@)),
            Err(_) => spec_events_of_raw(raw_views(raw@)) is None,
        },
{
    let ghost whole = raw_views(raw@);
    let n = raw.len();
    let mut out: Vec<TraceEvent> = Vec::new();
    let mut i: usize = 0;
    proof {
        assert(whole.skip(0) =~= whole);
        assert(trace_views(out@) =~= Seq::<TraceEventV>::empty());
    }
    while i < n
        invariant
            i <= n,
            n == raw@.len(),
            whole == raw_views(raw@),
            spec_events_of_raw(whole) == (match spec_events_of_raw(whole.skip(i as int)) {
                Some(es) => Some(trace_views(out@) + es),
                None => None::<Seq<TraceEventV>>,
            }),
        decreases n - i,
    {
        let d = &raw[i];
        proof {
            assert(whole.skip(i as int)[0] == raw@[i as int]@);
            assert(whole.skip(i as int).drop_first() =~= whole.skip(i + 1));
        }
        let et = match EventType::from_str(d.event_type.as_str()) {
            Some(t) => t,
            None => {
                return Err(TraceError::Serialize(String::from_str(
                    "unknown event type in trace document",
                )));
            },
        };
        let ev = TraceEvent {
            run_id: d.run_id.clone(),
            seq: d.seq,
            event_type: et,
            input: d.input.clone(),
            outcome: d.outcome,
            ts_seed: d.ts_seed,
        };
        let ghost prev = trace_views(out@);
        out.push(ev);
        proof {
            assert(trace_views(out@) =~= prev.push(ev@));
            assert(spec_event_of_raw(whole.skip(i as int)[0]) == Some(ev@));
            if let Some(es) = spec_events_of_raw(whole.skip(i + 1)) {
                assert(prev + (seq![ev@] + es) =~= trace_views(out@) + es);
            }
        }
        i = i + 1;
    }
    proof {
        assert(whole.skip(n as int) =~= Seq::<RawEventV>::empty());
        assert(trace_views(out@) + Seq::<TraceEventV>::empty() =~= trace_views(out@));
    }
    Ok(out)
}

/// Reads a trace back from text. The canonical layout `finalize_trace`
/// writes is inverted exactly — so a saved trace always loads back to
/// itself — and any other text is accepted precisely when it deserializes
/// as JSON to the event array, whatever its whitespace or member order.
pub fn load_trace(json: &str) -> (r: Result<Vec<TraceEvent>, TraceError>)
    ensures
        spec_parse_trace(json@) matches Some(es) ==> (r matches Ok(v) && trace_views(v@) == es),
        spec_parse_trace(json@) is None ==> match r {
            Ok(v) => trace_doc_of(json@) matches Some(raws) && spec_events_of_raw(raws) == Some(
                trace_views(v@),
            ),
            Err(_) => trace_doc_of(json@) is None || (trace_doc_of(json@) matches Some(raws)
                && spec_events_of_raw(raws) is None),
        },
{
    match parse_canonical(json) {
        Ok(events) => Ok(events),
        Err(_) => {
            let raw = match parse_trace_doc(json) {
                Some(v) => v,
                None => {
                    return Err(TraceError::Serialize(String::from_str(
                        "not a JSON trace document",
                    )));
                },
            };
            trace_from_raw(raw)
        },
    }
}

/// The structured log record for one enforcement decision, carrying the same
/// fields as the trace event it accompanies.
pub open spec fn spec_log_line(
    seq: u64,
    event_type: EventType,
    input: Seq<char>,
    outcome: bool,
    ts_seed: u64,
    plugin: Seq<char>,
) -> Seq<char> {
    "seq="@ + dec_digits(seq as nat) + " ts_seed="@ + dec_digits(ts_seed as nat) + " event_type="@
        + event_type.spec_str() + " input="@ + input + " outcome="@ + (if outcome {
        "true"@
    } else {
        "false"@
    }) + " plugin="@ + plugin
}

/// Formats the structured log record for one enforcement decision.
pub fn log_trace_event(
    seq: u64,
    event_type: EventType,
    input: &str,
    outcome: bool,
    ts_seed: u64,
    plugin: &str,
) -> (r: String)
    ensures
        r@ == spec_log_line(seq, event_type, input@, outcome, ts_seed, plugin@),
{
    let mut out = String::new();
    out.append("seq=");
    push_dec_digits(&mut out, seq);
    out.append(" ts_seed=");
    push_dec_digits(&mut out, ts_seed);
    out.append(" event_type=");
    out.append(event_type.as_str());
    out.append(" input=");
    out.append(input);
    out.append(" outcome=");
    if outcome {
        out.append("true");
    } else {
        out.append("false");
    }
    out.append(" plugin=");
    out.append(plugin);
    proof {
        assert(out@ =~= spec_log_line(seq, event_type, input@, outcome, ts_seed, plugin@));
    }
    out
}

} // verus!
