//! The boundary to serde_json, which reads JSON documents. What a document
//! deserializes to is a function of the text alone, so each query below gets
//! an uninterpreted name, tied to the one trusted wrapper that computes it;
//! the loaders' own contracts are exact over these names, and verified code
//! takes the plain values apart from there.

use vstd::prelude::*;
use crate::trace::{raw_views, RawEventV, RawTraceEvent};

verus! {

/// The root object's three identifier members — `plugin`, `version`,
/// `issued_by`, in that order — when the document parses and each of them is
/// a string.
pub uninterp spec fn manifest_doc_strings(s: Seq<char>) -> Option<
    (Seq<char>, Seq<char>, Seq<char>),
>;

/// Relies on serde_json's `from_str::<Value>`, `Value::get` and
/// `Value::as_str`: deterministic functions of the text, so the three
/// members are too. `None` when the document does not parse, a member is
/// missing, or a member is not a string.
#[verifier::external_body]
pub(crate) fn parse_doc_strings(s: &str) -> (r: Option<(String, String, String)>)
    ensures
        r is Some <==> manifest_doc_strings(s@) is Some,
        r matches Some(t) ==> manifest_doc_strings(s@) == Some((t.0@, t.1@, t.2@)),
{
    let doc: serde_json::Value = serde_json::from_str(s).ok()?;
    Some(
        (
            doc.get("plugin")?.as_str()?.to_owned(),
            doc.get("version")?.as_str()?.to_owned(),
            doc.get("issued_by")?.as_str()?.to_owned(),
        ),
    )
}

/// The shape of the document's `capabilities.fs` member: `None` when the
/// document does not parse or the member is malformed, `Some(false)` when
/// the grant is absent or null, `Some(true)` when it is an object.
pub uninterp spec fn manifest_doc_fs_kind(s: Seq<char>) -> Option<bool>;

/// Relies on serde_json's `from_str::<Value>`, `Value::get`,
/// `Value::is_null` and `Value::is_object`: `capabilities` must be an
/// object; its `fs` member may be absent, null, or an object, and anything
/// else is malformed.
#[verifier::external_body]
pub(crate) fn parse_doc_fs_kind(s: &str) -> (r: Option<bool>)
    ensures
        r == manifest_doc_fs_kind(s@),
{
    let doc: serde_json::Value = serde_json::from_str(s).ok()?;
    let caps = doc.get("capabilities")?;
    if !caps.is_object() {
        return None;
    }
    match caps.get("fs") {
        None => Some(false),
        Some(f) if f.is_null() => Some(false),
        Some(f) if f.is_object() => Some(true),
        Some(_) => None,
    }
}

/// The pattern list `capabilities.fs.<field>` of the document:
/// `Some(None)` when the member is absent or null, `Some(Some(patterns))`
/// when it is an array of strings, `None` when the document does not parse,
/// has no `capabilities.fs` object, or the member is malformed.
pub uninterp spec fn manifest_doc_patterns(s: Seq<char>, field: Seq<char>) -> Option<
    Option<Seq<Seq<char>>>,
>;

/// Relies on serde_json's `from_str::<Value>`, `Value::get`,
/// `Value::is_null`, `Value::as_array` and `Value::as_str`: every member of
/// the array must be a string, each taken over one for one.
#[verifier::external_body]
pub(crate) fn parse_doc_patterns(s: &str, field: &str) -> (r: Option<Option<Vec<String>>>)
    ensures
        ({
            let d = manifest_doc_patterns(s@, field@);
            match r {
                None => d is None,
                Some(None) => d == Some(None::<Seq<Seq<char>>>),
                Some(Some(v)) => d == Some(Some(v.deep_view())),
            }
        }),
{
    let doc: serde_json::Value = serde_json::from_str(s).ok()?;
    let member = match doc.get("capabilities")?.get("fs")?.get(field) {
        None => { return Some(None); },
        Some(x) => x,
    };
    if member.is_null() {
        return Some(None);
    }
    let arr = member.as_array()?;
    Some(Some(arr.iter().map(|p| p.as_str().map(str::to_owned)).collect::<Option<Vec<String>>>()?))
}

/// The event array a trace document deserializes to, fields as the document
/// carries them: `None` when the text is not JSON, not an array, or some
/// member lacks one of the six fields at its documented type.
pub uninterp spec fn trace_doc_of(s: Seq<char>) -> Option<Seq<RawEventV>>;

/// Relies on serde_json's `from_str::<Value>`, `Value::as_array`,
/// `Value::get`, `Value::as_str`, `Value::as_u64` and `Value::as_bool`:
/// each event's six fields are taken over one for one, whatever the member
/// order or surrounding whitespace in the text.
#[verifier::external_body]
pub(crate) fn parse_trace_doc(s: &str) -> (r: Option<Vec<RawTraceEvent>>)
    ensures
        r is Some <==> trace_doc_of(s@) is Some,
        r matches Some(v) ==> trace_doc_of(s@) == Some(raw_views(v@)),
{
    let doc: serde_json::Value = serde_json::from_str(s).ok()?;
    doc.as_array()?.iter().map(
        |e| Some(
            RawTraceEvent {
                run_id: e.get("run_id")?.as_str()?.to_owned(),
                seq: e.get("seq")?.as_u64()?,
                event_type: e.get("event_type")?.as_str()?.to_owned(),
                input: e.get("input")?.as_str()?.to_owned(),
                outcome: e.get("outcome")?.as_bool()?,
                ts_seed: e.get("ts_seed")?.as_u64()?,
            },
        ),
    ).collect()
}

} // verus!
