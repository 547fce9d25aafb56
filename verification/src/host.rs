//! The enforcement engine: one owner of the validated policy, the seed, the
//! signing key and the append-only trace, with `execute_plugin` as the single
//! decision point.

use vstd::prelude::*;
use vstd::string::StringExecFns;
use crate::crypto::{derive_pubkey, sha256_hex, sha256_hex_of, sign_bytes};
use crate::manifest::{
    spec_manifest_valid, spec_read_pattern_count, spec_read_patterns, render_manifest,
    render_manifest_json, CapabilityManifest,
};
use crate::pattern::{glob_compile_error, glob_match, glob_matches, glob_ok};
use crate::textenc::{dec_digits, push_dec_digits};
use crate::trace::{
    finalize_trace, render_trace, trace_views, CapEventSubtype, EventType, SignedTrace,
    TraceError, TraceEvent, TraceEventV,
};
use crate::tstamp::{spec_ts, ts, PRIME_MULTIPLIER};

verus! {

/// Errors from capability enforcement: the expected, caller-recoverable
/// outcomes of one decision.
#[derive(Debug, Clone, Copy, PartialEq, Eq, Structural)]
pub enum CapError {
    /// No filesystem capability is declared at all.
    NoFsCapability,
    /// A filesystem capability exists but declares no read patterns.
    NoReadPatterns,
    /// No declared pattern matches the path.
    GlobMismatch,
    /// The path is empty.
    InvalidPath,
}

impl CapError {
    /// A human-readable account of the error.
    pub open spec fn spec_message(self) -> Seq<char> {
        match self {
            CapError::NoFsCapability => "No FS capability declared"@,
            CapError::NoReadPatterns => "No read patterns defined"@,
            CapError::GlobMismatch => "Path does not match any glob pattern"@,
            CapError::InvalidPath => "Invalid path provided (empty or invalid UTF-8)"@,
        }
    }

    pub fn message(&self) -> (r: &'static str)
        ensures
            r@ == self.spec_message(),
    {
        match *self {
            CapError::NoFsCapability => "No FS capability declared",
            CapError::NoReadPatterns => "No read patterns defined",
            CapError::GlobMismatch => "Path does not match any glob pattern",
            CapError::InvalidPath => "Invalid path provided (empty or invalid UTF-8)",
        }
    }
}

/// The run identifier derived from the seed: a fixed prefix plus the seed's
/// decimal rendering.
pub open spec fn spec_run_id(seed: u64) -> Seq<char> {
    "captra-run-"@ + dec_digits(seed as nat)
}

/// The declared read patterns as plain sequences, empty when no filesystem
/// capability or no read field is declared.
pub open spec fn spec_pats(m: CapabilityManifest) -> Seq<Seq<char>> {
    match spec_read_patterns(m) {
        Some(ps) => ps,
        None => Seq::empty(),
    }
}

/// Whether the policy allows reading `path`: some declared pattern is
/// syntactically valid and matches it.
pub open spec fn spec_path_allowed(m: CapabilityManifest, path: Seq<char>) -> bool {
    exists|i: int|
        0 <= i < spec_pats(m).len() && glob_ok(#[trigger] spec_pats(m)[i]) && glob_match(
            spec_pats(m)[i],
            path,
        )
}

/// What one call of `execute_plugin` returns, as a function of the policy
/// and the path alone.
pub open spec fn spec_call_result(m: CapabilityManifest, path: Seq<char>) -> Result<
    bool,
    CapError,
> {
    if path.len() == 0 {
        Err(CapError::InvalidPath)
    } else if m.capabilities.fs is None {
        Err(CapError::NoFsCapability)
    } else if spec_pats(m).len() == 0 {
        Err(CapError::NoReadPatterns)
    } else if spec_path_allowed(m, path) {
        Ok(true)
    } else {
        Err(CapError::GlobMismatch)
    }
}

/// The error event appended for the failure reason `st`, as event number
/// `seq_no` of a run.
pub open spec fn spec_error_event(
    run_id: Seq<char>,
    seq_no: u64,
    st: CapEventSubtype,
    reason: Seq<char>,
    seed: u64,
) -> TraceEventV {
    TraceEventV {
        run_id,
        seq: seq_no,
        event_type: st.spec_event_type(),
        input: st.spec_str() + ": "@ + reason,
        outcome: false,
        ts_seed: spec_ts(seed, seq_no),
    }
}

/// The success event for an allowed path.
pub open spec fn spec_allow_event(
    run_id: Seq<char>,
    seq_no: u64,
    path: Seq<char>,
    seed: u64,
) -> TraceEventV {
    TraceEventV {
        run_id,
        seq: seq_no,
        event_type: EventType::CapCall,
        input: path,
        outcome: true,
        ts_seed: spec_ts(seed, seq_no),
    }
}

/// The events appended while the patterns from index `k` on are evaluated
/// against `path`, with `base` events already in the trace: one error event
/// per malformed pattern passed over, then one terminal event — the allow
/// event at the first match, or the mismatch event when none is left.
pub open spec fn spec_scan_events(
    pats: Seq<Seq<char>>,
    k: int,
    path: Seq<char>,
    run_id: Seq<char>,
    seed: u64,
    base: nat,
) -> Seq<TraceEventV>
    decreases pats.len() - k,
{
    if k < 0 || k >= pats.len() {
        seq![
            spec_error_event(
                run_id,
                (base + 1) as u64,
                CapEventSubtype::GlobMismatch,
                "no matching pattern"@,
                seed,
            ),
        ]
    } else if glob_ok(pats[k]) {
        if glob_match(pats[k], path) {
            seq![spec_allow_event(run_id, (base + 1) as u64, path, seed)]
        } else {
            spec_scan_events(pats, k + 1, path, run_id, seed, base)
        }
    } else {
        seq![
            spec_error_event(
                run_id,
                (base + 1) as u64,
                CapEventSubtype::InvalidGlob,
                pats[k],
                seed,
            ),
        ] + spec_scan_events(pats, k + 1, path, run_id, seed, base + 1)
    }
}

/// The events one call of `execute_plugin` appends: none for an empty path,
/// one error event for a missing capability or missing patterns, and the
/// pattern-scan events otherwise.
pub open spec fn spec_call_events(
    m: CapabilityManifest,
    path: Seq<char>,
    run_id: Seq<char>,
    seed: u64,
    base: nat,
) -> Seq<TraceEventV> {
    if path.len() == 0 {
        Seq::empty()
    } else if m.capabilities.fs is None {
        seq![
            spec_error_event(
                run_id,
                (base + 1) as u64,
                CapEventSubtype::NoFsCapability,
                "missing fs cap"@,
                seed,
            ),
        ]
    } else if spec_pats(m).len() == 0 {
        seq![
            spec_error_event(
                run_id,
                (base + 1) as u64,
                CapEventSubtype::NoReadPatterns,
                "empty read patterns"@,
                seed,
            ),
        ]
    } else {
        spec_scan_events(spec_pats(m), 0, path, run_id, seed, base)
    }
}

/// The enforcement engine for one plugin run.
pub struct HostState {
    manifest: CapabilityManifest,
    trace: Vec<TraceEvent>,
    seed: u64,
    keypair: ed25519_dalek::SigningKey,
    pubkey: [u8; 32],
    run_id: String,
    manifest_hash: String,
}

impl HostState {
    /// Well-formedness: the policy is validated, the derived identifiers are
    /// what the seed and the policy dictate, and the trace's bookkeeping
    /// invariants hold — event `i` carries sequence number `i + 1`, the
    /// run's identifier, and the deterministic timestamp for its number.
    pub closed spec fn spec_manifest(self) -> CapabilityManifest {
        self.manifest
    }

    pub closed spec fn spec_trace(self) -> Seq<TraceEvent> {
        self.trace@
    }

    pub closed spec fn spec_seed(self) -> u64 {
        self.seed
    }

    pub closed spec fn spec_run_id_field(self) -> Seq<char> {
        self.run_id@
    }

    pub closed spec fn spec_manifest_hash(self) -> Seq<char> {
        self.manifest_hash@
    }

    pub closed spec fn spec_pubkey(self) -> Seq<u8> {
        self.pubkey@
    }

    pub open spec fn wf(self) -> bool {
        &&& spec_manifest_valid(self.spec_manifest())
        &&& self.spec_run_id_field() == spec_run_id(self.spec_seed())
        &&& self.spec_manifest_hash() == sha256_hex_of(render_manifest(self.spec_manifest()))
        &&& forall|i: int|
            0 <= i < self.spec_trace().len() ==> (#[trigger] self.spec_trace()[i])@.seq == i + 1
        &&& forall|i: int|
            0 <= i < self.spec_trace().len() ==> (#[trigger] self.spec_trace()[i])@.run_id
                == self.spec_run_id_field()
        &&& forall|i: int|
            0 <= i < self.spec_trace().len() ==> (#[trigger] self.spec_trace()[i])@.ts_seed
                == spec_ts(self.spec_seed(), (i + 1) as u64)
    }

    /// Constructs an engine from a validated manifest, a seed and a signing
    /// keypair, deriving the run identifier, the policy fingerprint and the
    /// public key once and for all.
    pub fn new(manifest: CapabilityManifest, seed: u64, keypair: ed25519_dalek::SigningKey) -> (r:
        HostState)
        requires
            spec_manifest_valid(manifest),
        ensures
            r.wf(),
            r.spec_manifest() == manifest,
            r.spec_seed() == seed,
            r.spec_trace().len() == 0,
            r.spec_run_id_field() == spec_run_id(seed),
            r.spec_manifest_hash() == sha256_hex_of(render_manifest(manifest)),
    {
        let pubkey = derive_pubkey(&keypair);
        let mut run_id = String::from_str("captra-run-");
        push_dec_digits(&mut run_id, seed);
        let manifest_json = render_manifest_json(&manifest);
        let manifest_hash = sha256_hex(manifest_json.as_str());
        HostState { manifest, trace: Vec::new(), seed, keypair, pubkey, run_id, manifest_hash }
    }

    /// The engine's public verification key.
    pub fn pubkey(&self) -> (r: &[u8; 32])
        ensures
            r@ == self.spec_pubkey(),
    {
        &self.pubkey
    }

    /// The run identifier.
    pub fn run_id(&self) -> (r: &str)
        ensures
            r@ == self.spec_run_id_field(),
    {
        self.run_id.as_str()
    }

    /// The policy fingerprint embedded in signed exports.
    pub fn manifest_hash(&self) -> (r: &str)
        ensures
            r@ == self.spec_manifest_hash(),
    {
        self.manifest_hash.as_str()
    }

    /// The governed plugin's identifier, as the policy names it.
    pub fn plugin(&self) -> (r: &str)
        ensures
            r@ == self.spec_manifest().plugin@,
    {
        self.manifest.plugin.as_str()
    }

    /// The trace so far.
    pub fn trace(&self) -> (r: &Vec<TraceEvent>)
        ensures
            r@ == self.spec_trace(),
    {
        &self.trace
    }

    /// Appends the error event for `st`, with `"<reason-code>: <detail>"` as
    /// its input.
    fn log_cap_error(&mut self, st: CapEventSubtype, reason: &str)
        requires
            old(self).trace@.len() + 1 + PRIME_MULTIPLIER <= u64::MAX,
        ensures
            final(self).manifest == old(self).manifest,
            final(self).seed == old(self).seed,
            final(self).run_id == old(self).run_id,
            final(self).manifest_hash == old(self).manifest_hash,
            final(self).pubkey == old(self).pubkey,
            final(self).trace@ == old(self).trace@.push(final(self).trace@.last()),
            final(self).trace@.len() == old(self).trace@.len() + 1,
            final(self).trace@.last()@ == spec_error_event(
                old(self).run_id@,
                (old(self).trace@.len() + 1) as u64,
                st,
                reason@,
                old(self).seed,
            ),
    {
        let seq_no: u64 = (self.trace.len() as u64) + 1;
        let ts_seed = ts(self.seed, seq_no);
        let mut input = String::new();
        input.append(st.as_str());
        input.append(": ");
        input.append(reason);
        proof {
            assert(input@ =~= st.spec_str() + ": "@ + reason@);
        }
        let event = TraceEvent {
            run_id: self.run_id.clone(),
            seq: seq_no,
            event_type: st.event_type(),
            input,
            outcome: false,
            ts_seed,
        };
        self.trace.push(event);
    }

    /// The single decision point: checks `path` against the policy, appends
    /// exactly the events `spec_call_events` describes, and returns exactly
    /// `spec_call_result`.
    pub fn execute_plugin(&mut self, path: &str) -> (r: Result<bool, CapError>)
        requires
            old(self).wf(),
            old(self).spec_trace().len() + spec_read_pattern_count(old(self).spec_manifest())
                + PRIME_MULTIPLIER + 1 <= u64::MAX,
        ensures
            final(self).wf(),
            final(self).spec_manifest() == old(self).spec_manifest(),
            final(self).spec_seed() == old(self).spec_seed(),
            final(self).spec_run_id_field() == old(self).spec_run_id_field(),
            final(self).spec_manifest_hash() == old(self).spec_manifest_hash(),
            final(self).spec_pubkey() == old(self).spec_pubkey(),
            trace_views(final(self).spec_trace()) == trace_views(old(self).spec_trace())
                + spec_call_events(
                old(self).spec_manifest(),
                path@,
                old(self).spec_run_id_field(),
                old(self).spec_seed(),
                old(self).spec_trace().len(),
            ),
            r == spec_call_result(old(self).spec_manifest(), path@),
    {
        let ghost m = self.manifest;
        let ghost base0 = self.trace@.len();
        if path.is_empty() {
            proof {
                assert(trace_views(self.trace@) =~= trace_views(self.trace@)
                    + spec_call_events(m, path@, self.run_id@, self.seed, base0));
            }
            return Err(CapError::InvalidPath);
        }
        if self.manifest.capabilities.fs.is_none() {
            let ghost before = trace_views(self.trace@);
            self.log_cap_error(CapEventSubtype::NoFsCapability, "missing fs cap");
            proof {
                lemma_views_push(old(self).trace@, self.trace@.last());
                assert(trace_views(self.trace@) =~= before + spec_call_events(
                    m,
                    path@,
                    old(self).run_id@,
                    old(self).seed,
                    base0,
                ));
            }
            return Err(CapError::NoFsCapability);
        }
        let read_patterns: Vec<String> = match &self.manifest.capabilities.fs {
            Some(fs_cap) => match &fs_cap.read {
                Some(ps) => clone_strings(ps),
                None => Vec::new(),
            },
            None => Vec::new(),
        };
        proof {
            assert(read_patterns.deep_view() =~= spec_pats(m));
        }
        if read_patterns.len() == 0 {
            let ghost before = trace_views(self.trace@);
            self.log_cap_error(CapEventSubtype::NoReadPatterns, "empty read patterns");
            proof {
                lemma_views_push(old(self).trace@, self.trace@.last());
                assert(trace_views(self.trace@) =~= before + spec_call_events(
                    m,
                    path@,
                    old(self).run_id@,
                    old(self).seed,
                    base0,
                ));
            }
            return Err(CapError::NoReadPatterns);
        }
        let ghost pats = spec_pats(m);
        let ghost rid = self.run_id@;
        let ghost seed = self.seed;
        let n = read_patterns.len();
        let mut k: usize = 0;
        while k < n
            invariant
                k <= n,
                n == read_patterns@.len(),
                n >= 1,
                pats == read_patterns.deep_view(),
                pats == spec_pats(m),
                pats.len() == n,
                path@.len() > 0,
                m.capabilities.fs is Some,
                m == old(self).spec_manifest(),
                seed == old(self).spec_seed(),
                rid == old(self).spec_run_id_field(),
                base0 == old(self).spec_trace().len(),
                self.wf(),
                self.manifest == m,
                self.seed == seed,
                self.run_id@ == rid,
                self.run_id == old(self).run_id,
                self.manifest_hash == old(self).manifest_hash,
                self.pubkey == old(self).pubkey,
                self.trace@.len() + (n - k) + 1 + PRIME_MULTIPLIER <= u64::MAX,
                trace_views(old(self).trace@) + spec_call_events(m, path@, rid, seed, base0)
                    == trace_views(self.trace@) + spec_scan_events(
                    pats,
                    k as int,
                    path@,
                    rid,
                    seed,
                    self.trace@.len(),
                ),
                forall|j: int|
                    0 <= j < k ==> !(glob_ok(#[trigger] pats[j]) && glob_match(pats[j], path@)),
            decreases n - k,
        {
            let pattern = &read_patterns[k];
            proof {
                assert(pats[k as int] == read_patterns@[k as int]@);
            }
            match glob_compile_error(pattern.as_str()) {
                Some(_) => {
                    let ghost prev = self.trace@;
                    let ghost before = trace_views(self.trace@);
                    let ghost blen = self.trace@.len();
                    self.log_cap_error(CapEventSubtype::InvalidGlob, pattern.as_str());
                    proof {
                        lemma_views_push(prev, self.trace@.last());
                        assert(trace_views(self.trace@) =~= before.push(self.trace@.last()@));
                        assert(spec_scan_events(pats, k as int, path@, rid, seed, blen) == seq![
                            spec_error_event(
                                rid,
                                (blen + 1) as u64,
                                CapEventSubtype::InvalidGlob,
                                pats[k as int],
                                seed,
                            ),
                        ] + spec_scan_events(pats, k as int + 1, path@, rid, seed, blen + 1));
                        assert(before + (seq![self.trace@.last()@] + spec_scan_events(
                            pats,
                            k as int + 1,
                            path@,
                            rid,
                            seed,
                            blen + 1,
                        )) =~= trace_views(self.trace@) + spec_scan_events(
                            pats,
                            k as int + 1,
                            path@,
                            rid,
                            seed,
                            blen + 1,
                        ));
                    }
                },
                None => {
                    if glob_matches(pattern.as_str(), path) {
                        let seq_no: u64 = (self.trace.len() as u64) + 1;
                        let ts_seed = ts(self.seed, seq_no);
                        let event = TraceEvent {
                            run_id: self.run_id.clone(),
                            seq: seq_no,
                            event_type: EventType::CapCall,
                            input: String::from_str(path),
                            outcome: true,
                            ts_seed,
                        };
                        let ghost prev = self.trace@;
                        let ghost before = trace_views(self.trace@);
                        let ghost blen = self.trace@.len();
                        self.trace.push(event);
                        proof {
                            lemma_views_push(prev, self.trace@.last());
                            assert(trace_views(self.trace@) =~= before.push(
                                spec_allow_event(rid, (blen + 1) as u64, path@, seed),
                            ));
                            assert(spec_scan_events(pats, k as int, path@, rid, seed, blen)
                                == seq![spec_allow_event(rid, (blen + 1) as u64, path@, seed)]);
                            assert(before + seq![
                                spec_allow_event(rid, (blen + 1) as u64, path@, seed),
                            ] =~= trace_views(self.trace@));
                            assert(spec_path_allowed(m, path@));
                        }
                        return Ok(true);
                    }
                },
            }
            k = k + 1;
        }
        // no pattern matched
        let ghost prev = self.trace@;
        let ghost before = trace_views(self.trace@);
        let ghost blen = self.trace@.len();
        self.log_cap_error(CapEventSubtype::GlobMismatch, "no matching pattern");
        proof {
            lemma_views_push(prev, self.trace@.last());
            assert(trace_views(self.trace@) =~= before.push(self.trace@.last()@));
            assert(spec_scan_events(pats, n as int, path@, rid, seed, blen) == seq![
                spec_error_event(
                    rid,
                    (blen + 1) as u64,
                    CapEventSubtype::GlobMismatch,
                    "no matching pattern"@,
                    seed,
                ),
            ]);
            assert(before + seq![self.trace@.last()@] =~= trace_views(self.trace@));
            if spec_path_allowed(m, path@) {
                let i = choose|i: int|
                    0 <= i < pats.len() && glob_ok(#[trigger] pats[i]) && glob_match(
                        pats[i],
                        path@,
                    );
                assert(false);
            }
        }
        Err(CapError::GlobMismatch)
    }

    /// Serializes the current trace, hashes it, signs the hash and packages
    /// the export. Never fails and never mutates the engine.
    pub fn sign_current_trace(&self) -> (r: Result<SignedTrace, TraceError>)
        ensures
            r matches Ok(st) && st.run_id@ == self.spec_run_id_field() && st.manifest_hash@
                == self.spec_manifest_hash() && st.trace_json@ == render_trace(
                trace_views(self.spec_trace()),
            ) && st.signature@.len() == 88,
    {
        let trace_json = finalize_trace(&self.trace);
        let trace_hash = sha256_hex(trace_json.as_str());
        let signature = sign_bytes(&self.keypair, trace_hash.as_str());
        Ok(
            SignedTrace::new(
                self.run_id.clone(),
                self.manifest_hash.clone(),
                trace_json,
                signature,
            ),
        )
    }

    /// The canonical text of the current trace.
    pub fn get_trace_json(&self) -> (r: String)
        ensures
            r@ == render_trace(trace_views(self.spec_trace())),
    {
        finalize_trace(&self.trace)
    }
}

/// Determinism: two engines with the same policy and seed — their signing
/// keys may differ in any way — append the same events and return the same
/// result for the same path at the same point of a run. The events and the
/// result are functions of the policy, the seed, the trace length and the
/// path alone; the key never enters them.
pub proof fn lemma_trace_determinism(h1: HostState, h2: HostState, path: Seq<char>)
    requires
        h1.wf(),
        h2.wf(),
        h1.spec_manifest() == h2.spec_manifest(),
        h1.spec_seed() == h2.spec_seed(),
        h1.spec_trace().len() == h2.spec_trace().len(),
    ensures
        spec_call_events(
            h1.spec_manifest(),
            path,
            h1.spec_run_id_field(),
            h1.spec_seed(),
            h1.spec_trace().len(),
        ) == spec_call_events(
            h2.spec_manifest(),
            path,
            h2.spec_run_id_field(),
            h2.spec_seed(),
            h2.spec_trace().len(),
        ),
        spec_call_result(h1.spec_manifest(), path) == spec_call_result(h2.spec_manifest(), path),
{
}

/// The pattern scan always appends a terminal event, and that event's
/// outcome is `true` exactly when some pattern from index `k` on is valid
/// and matches the path.
proof fn lemma_scan_terminal(
    pats: Seq<Seq<char>>,
    k: int,
    path: Seq<char>,
    run_id: Seq<char>,
    seed: u64,
    base: nat,
)
    requires
        0 <= k <= pats.len(),
    ensures
        spec_scan_events(pats, k, path, run_id, seed, base).len() >= 1,
        spec_scan_events(pats, k, path, run_id, seed, base).last().outcome <==> exists|i: int|
            k <= i < pats.len() && glob_ok(#[trigger] pats[i]) && glob_match(pats[i], path),
    decreases pats.len() - k,
{
    if k == pats.len() {
    } else if glob_ok(pats[k]) && glob_match(pats[k], path) {
        assert(glob_ok(pats[k]) && glob_match(pats[k], path));
    } else if glob_ok(pats[k]) {
        lemma_scan_terminal(pats, k + 1, path, run_id, seed, base);
    } else {
        lemma_scan_terminal(pats, k + 1, path, run_id, seed, base + 1);
        let es = spec_scan_events(pats, k + 1, path, run_id, seed, base + 1);
        let whole = spec_scan_events(pats, k, path, run_id, seed, base);
        assert(whole.last() == es.last());
    }
}

/// Outcome discipline: whenever a call appends events, the terminal event
/// records `true` exactly when the call granted access.
pub proof fn lemma_outcome_matches_result(
    m: CapabilityManifest,
    path: Seq<char>,
    run_id: Seq<char>,
    seed: u64,
    base: nat,
)
    ensures
        ({
            let es = spec_call_events(m, path, run_id, seed, base);
            es.len() > 0 ==> (es.last().outcome <==> spec_call_result(m, path) is Ok)
        }),
{
    if path.len() > 0 && !(m.capabilities.fs is None) && spec_pats(m).len() > 0 {
        lemma_scan_terminal(spec_pats(m), 0, path, run_id, seed, base);
    }
}

/// Sequencing: in a well-formed engine the trace's sequence numbers are
/// exactly 1, 2, 3, … in call order, with no gaps and no repeats, whether
/// the recorded decisions succeeded or failed.
pub proof fn lemma_trace_sequencing(h: HostState)
    requires
        h.wf(),
    ensures
        forall|i: int|
            0 <= i < h.spec_trace().len() ==> (#[trigger] trace_views(h.spec_trace())[i]).seq == i
                + 1,
{
    assert forall|i: int|
        0 <= i < h.spec_trace().len() implies (#[trigger] trace_views(h.spec_trace())[i]).seq == i
        + 1 by {
        assert(trace_views(h.spec_trace())[i] == h.spec_trace()[i]@);
    }
}

/// Pushing an event appends its view.
proof fn lemma_views_push(t: Seq<TraceEvent>, e: TraceEvent)
    ensures
        trace_views(t.push(e)) == trace_views(t).push(e@),
{
    assert(trace_views(t.push(e)) =~= trace_views(t).push(e@));
}

/// An element-wise copy of a pattern list.
fn clone_strings(v: &Vec<String>) -> (r: Vec<String>)
    ensures
        r@ == v@,
{
    let mut r: Vec<String> = Vec::new();
    let n = v.len();
    let mut i: usize = 0;
    while i < n
        invariant
            i <= n,
            n == v@.len(),
            r@ == v@.subrange(0, i as int),
        decreases n - i,
    {
        r.push(v[i].clone());
        proof {
            assert(v@.subrange(0, i + 1) =~= v@.subrange(0, i as int).push(v@[i as int]));
        }
        i = i + 1;
    }
    proof {
        assert(v@.subrange(0, n as int) =~= v@);
    }
    r
}

} // verus!
