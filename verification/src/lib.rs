//! Capability-based trust layer for plugin execution: a validated policy
//! says what a plugin may touch, every resource-access request is checked
//! against it, and each decision lands in a deterministically reproducible,
//! cryptographically signable audit trace.
//!
//! The enforcement engine lives in [`host`], the policy model and validator
//! in [`manifest`], the trace and its canonical text form in [`trace`].
//! The trace's serialization is verified end to end: loading a saved trace
//! provably returns the trace that was saved, and the recorded events are
//! a proven function of the policy, the seed and the requests alone, never
//! of the signing key. Glob matching, hashing, signing and JSON document
//! parsing come from outside crates through the trusted boundaries in
//! [`pattern`], [`crypto`] and [`jsonval`].

pub mod bridge;
pub mod crypto;
pub mod host;
pub mod jsonval;
pub mod manifest;
pub mod pattern;
pub mod textenc;
pub mod trace;
pub mod tstamp;

pub use bridge::{status_allowed, status_of, HostStatus};
pub use host::{CapError, HostState};
pub use manifest::{
    load_manifest, Capabilities, Capability, CapabilityManifest, FsCapability, ManifestError,
};
pub use trace::{
    finalize_trace, load_trace, log_trace_event, trace_from_raw, CapEventSubtype, EventType,
    RawTraceEvent, SignedTrace, TraceError, TraceEvent,
};
