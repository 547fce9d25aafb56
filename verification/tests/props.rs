use base64::Engine;
use captra::{
    load_manifest, load_trace, log_trace_event, status_allowed, status_of, trace_from_raw,
    CapError, CapEventSubtype, Capabilities, CapabilityManifest, EventType, FsCapability,
    HostState, HostStatus, ManifestError, RawTraceEvent,
};
use ed25519_dalek::{Signature, SigningKey, Verifier, VerifyingKey};
use rand::rngs::OsRng;
use sha2::{Digest, Sha256};

fn manifest_with_read(patterns: Vec<&str>) -> CapabilityManifest {
    CapabilityManifest {
        plugin: String::from("formatter-v1"),
        version: String::from("0.1"),
        capabilities: Capabilities {
            fs: Some(FsCapability {
                read: Some(patterns.into_iter().map(String::from).collect()),
                write: Some(Vec::new()),
            }),
        },
        issued_by: String::from("dev-team"),
    }
}

fn host_with(manifest: CapabilityManifest, seed: u64) -> HostState {
    let mut csprng = OsRng;
    let keypair = SigningKey::generate(&mut csprng);
    HostState::new(manifest, seed, keypair)
}

#[test]
fn determinism_two_engines_same_seed() {
    let calls = ["./workspace/config.toml", "/etc/passwd", "", "./workspace/a.txt"];
    let mut host1 = host_with(manifest_with_read(vec!["./workspace/*"]), 777);
    let mut host2 = host_with(manifest_with_read(vec!["./workspace/*"]), 777);
    for path in calls {
        let r1 = host1.execute_plugin(path);
        let r2 = host2.execute_plugin(path);
        assert_eq!(r1, r2);
    }
    // equal in every field, although the signing keys differ
    assert_eq!(host1.trace(), host2.trace());
}

#[test]
fn sequencing_across_outcomes() {
    let mut host = host_with(manifest_with_read(vec!["./workspace/*"]), 9);
    let _ = host.execute_plugin("./workspace/one");
    let _ = host.execute_plugin("/etc/passwd");
    let _ = host.execute_plugin("./workspace/two");
    assert_eq!(host.trace().len(), 3);
    for (i, ev) in host.trace().iter().enumerate() {
        assert_eq!(ev.seq, i as u64 + 1);
    }
}

#[test]
fn sequencing_with_degraded_pattern() {
    // a malformed pattern inside the list is skipped with its own error
    // event; the sequence numbers keep counting without reuse
    let mut host = host_with(manifest_with_read(vec!["[", "./workspace/*"]), 4);
    let out = host.execute_plugin("./workspace/config.toml").expect("allow expected");
    assert!(out);
    assert_eq!(host.trace().len(), 2);
    let ev1 = host.trace().first().expect("error event");
    assert_eq!(ev1.seq, 1);
    assert_eq!(ev1.event_type, EventType::CapError);
    assert!(!ev1.outcome);
    assert_eq!(ev1.input, "invalid_glob: [");
    let ev2 = host.trace().get(1).expect("allow event");
    assert_eq!(ev2.seq, 2);
    assert_eq!(ev2.event_type, EventType::CapCall);
    assert!(ev2.outcome);
    assert_eq!(ev2.input, "./workspace/config.toml");
    assert_ne!(ev1.ts_seed, ev2.ts_seed);
}

#[test]
fn glob_semantics_single_segment() {
    let mut host = host_with(manifest_with_read(vec!["./workspace/*"]), 5);
    assert_eq!(host.execute_plugin("./workspace/config.toml"), Ok(true));
    assert_eq!(host.execute_plugin("/etc/passwd"), Err(CapError::GlobMismatch));
    // the wildcard does not cross a path separator
    assert_eq!(
        host.execute_plugin("./workspace/sub/deep.txt"),
        Err(CapError::GlobMismatch)
    );
}

#[test]
fn missing_capability_scenario() {
    let manifest_json = r#"
        {
          "plugin": "formatter-v1",
          "version": "0.1",
          "capabilities": { "fs": null },
          "issued_by": "dev-team"
        }
    "#;
    let manifest = load_manifest(manifest_json).expect("valid manifest");
    assert!(manifest.capabilities.fs.is_none());
    let mut host = host_with(manifest, 5);
    assert_eq!(host.execute_plugin("./anything"), Err(CapError::NoFsCapability));
    assert_eq!(host.trace().len(), 1);
    let ev = host.trace().first().expect("one event");
    assert_eq!(ev.event_type, EventType::CapError);
    assert_eq!(ev.input, "no_fs_capability: missing fs cap");
    assert!(!ev.outcome);
}

#[test]
fn missing_read_patterns_scenario() {
    // `read` absent
    let manifest = CapabilityManifest {
        plugin: String::from("p"),
        version: String::from("1"),
        capabilities: Capabilities {
            fs: Some(FsCapability { read: None, write: None }),
        },
        issued_by: String::from("i"),
    };
    let mut host = host_with(manifest, 6);
    assert_eq!(host.execute_plugin("./x"), Err(CapError::NoReadPatterns));
    let ev = host.trace().first().expect("one event");
    assert_eq!(ev.event_type, EventType::CapError);
    assert_eq!(ev.input, "no_read_patterns: empty read patterns");

    // `read` present but empty
    let mut host2 = host_with(manifest_with_read(vec![]), 6);
    assert_eq!(host2.execute_plugin("./x"), Err(CapError::NoReadPatterns));
    assert_eq!(host2.trace().len(), 1);
}

#[test]
fn invalid_path_scenario() {
    let mut host = host_with(manifest_with_read(vec!["./workspace/*"]), 7);
    assert_eq!(host.execute_plugin(""), Err(CapError::InvalidPath));
    // no auditable decision was attempted: no event, no sequence number
    assert_eq!(host.trace().len(), 0);
    // the next call still gets sequence number 1
    let _ = host.execute_plugin("/etc/passwd");
    assert_eq!(host.trace().first().expect("one event").seq, 1);
}

#[test]
fn invalid_manifest_variants() {
    let base = manifest_with_read(vec!["./workspace/*"]);

    let mut empty_plugin = base.clone();
    empty_plugin.plugin = String::new();
    assert!(matches!(empty_plugin.validate(), Err(ManifestError::InvalidPlugin)));

    let mut empty_version = base.clone();
    empty_version.version = String::new();
    assert!(matches!(empty_version.validate(), Err(ManifestError::InvalidVersion)));

    let mut empty_issuer = base.clone();
    empty_issuer.issued_by = String::new();
    assert!(matches!(empty_issuer.validate(), Err(ManifestError::InvalidIssuer)));

    let bad_glob = manifest_with_read(vec!["[", "./ok/*"]);
    match bad_glob.validate() {
        Err(ManifestError::InvalidGlob { idx, pattern, err }) => {
            assert_eq!(idx, 0);
            assert_eq!(pattern, "[");
            assert!(!err.is_empty());
        },
        other => panic!("Expected InvalidGlob, got: {other:?}"),
    }

    assert!(base.validate().is_ok());
}

#[test]
fn signature_verifies_and_tampering_fails() {
    let mut host = host_with(manifest_with_read(vec!["./workspace/*"]), 99);
    let _ = host.execute_plugin("./workspace/config.toml").expect("allow expected");

    let signed = host.sign_current_trace().expect("signing expected");
    let sig_vec = base64::engine::general_purpose::STANDARD
        .decode(&signed.signature)
        .expect("base64 decode");
    let sig_bytes: [u8; 64] = sig_vec.try_into().expect("64-byte signature");
    let sig = Signature::from_bytes(&sig_bytes);
    let vk = VerifyingKey::from_bytes(host.pubkey()).expect("valid public key");

    let mut hasher = Sha256::default();
    hasher.update(signed.trace_json.as_bytes());
    let hash_hex = format!("{:x}", hasher.finalize());
    assert!(vk.verify(hash_hex.as_bytes(), &sig).is_ok());

    // one flipped byte of the trace text must break verification
    let mut tampered = signed.trace_json.clone().into_bytes();
    tampered[0] ^= 1;
    let mut hasher2 = Sha256::default();
    hasher2.update(&tampered);
    let tampered_hex = format!("{:x}", hasher2.finalize());
    assert!(vk.verify(tampered_hex.as_bytes(), &sig).is_err());
}

#[test]
fn round_trip_lengths() {
    // length 0
    let host0 = host_with(manifest_with_read(vec!["./workspace/*"]), 1);
    let json0 = host0.get_trace_json();
    assert_eq!(json0, "[]");
    assert_eq!(load_trace(&json0).expect("parse expected"), Vec::new());

    // length 1
    let mut host1 = host_with(manifest_with_read(vec!["./workspace/*"]), 1);
    let _ = host1.execute_plugin("./workspace/a");
    let json1 = host1.get_trace_json();
    assert_eq!(&load_trace(&json1).expect("parse expected"), host1.trace());

    // length 3, mixed outcomes
    let mut host3 = host_with(manifest_with_read(vec!["./workspace/*"]), 1);
    let _ = host3.execute_plugin("./workspace/a");
    let _ = host3.execute_plugin("/etc/passwd");
    let _ = host3.execute_plugin("./workspace/b");
    let json3 = host3.get_trace_json();
    assert_eq!(&load_trace(&json3).expect("parse expected"), host3.trace());
}

#[test]
fn round_trip_with_escaped_input() {
    // a path holding quotes and backslashes survives save and load exactly
    let mut host = host_with(manifest_with_read(vec!["*"]), 2);
    let tricky = "a\"b\\c";
    assert_eq!(host.execute_plugin(tricky), Ok(true));
    let json = host.get_trace_json();
    let loaded = load_trace(&json).expect("parse expected");
    assert_eq!(loaded.len(), 1);
    assert_eq!(loaded[0].input, tricky);
    assert_eq!(&loaded, host.trace());
}

#[test]
fn load_trace_accepts_any_json_layout() {
    // whitespace variants of the empty array
    assert_eq!(load_trace("[ ]").expect("valid JSON"), Vec::new());
    assert_eq!(load_trace("[\n\n]").expect("valid JSON"), Vec::new());
    // re-indented text and trailing whitespace
    let mut host = host_with(manifest_with_read(vec!["./workspace/*"]), 3);
    let _ = host.execute_plugin("./workspace/a");
    let mut json = host.get_trace_json();
    json.push(' ');
    assert_eq!(&load_trace(&json).expect("valid JSON"), host.trace());
    // reordered members and an unknown member
    let reordered = r#"[ { "ts_seed": 5, "outcome": true, "note": "extra",
        "input": "./x", "event_type": "cap.call", "seq": 1,
        "run_id": "captra-run-7" } ]"#;
    let loaded = load_trace(reordered).expect("valid JSON");
    assert_eq!(loaded.len(), 1);
    assert_eq!(loaded[0].run_id, "captra-run-7");
    assert_eq!(loaded[0].seq, 1);
    assert_eq!(loaded[0].event_type, EventType::CapCall);
    assert_eq!(loaded[0].input, "./x");
    assert!(loaded[0].outcome);
    assert_eq!(loaded[0].ts_seed, 5);
}

#[test]
fn canonical_text_is_json_even_with_control_characters() {
    let mut host = host_with(manifest_with_read(vec!["*"]), 2);
    let tricky = "a\n\tb";
    assert_eq!(host.execute_plugin(tricky), Ok(true));
    let json = host.get_trace_json();
    // control characters are written as \u00 escapes, so the canonical
    // text is real JSON and outside readers can parse it
    assert!(json.contains("\\u000a"));
    assert!(json.contains("\\u0009"));
    let doc: serde_json::Value = serde_json::from_str(&json).expect("valid JSON");
    assert_eq!(doc[0]["input"].as_str(), Some(tricky));
    // and the verified loader reads it back exactly
    assert_eq!(&load_trace(&json).expect("parse expected"), host.trace());
}

#[test]
fn load_trace_rejects_non_traces() {
    assert!(load_trace("").is_err());
    assert!(load_trace("[").is_err());
    assert!(load_trace("{}").is_err());
    assert!(load_trace("[1]").is_err());
    // an unknown event kind is refused
    let bad_kind = r#"[{"run_id":"r","seq":1,"event_type":"cap.other",
        "input":"x","outcome":false,"ts_seed":2}]"#;
    assert!(load_trace(bad_kind).is_err());
    // garbage after the array is refused
    let mut host = host_with(manifest_with_read(vec!["./workspace/*"]), 3);
    let _ = host.execute_plugin("./workspace/a");
    let mut json = host.get_trace_json();
    json.push('x');
    assert!(load_trace(&json).is_err());
}

#[test]
fn trace_from_raw_decodes_known_kinds() {
    let raw = vec![RawTraceEvent {
        run_id: String::from("captra-run-7"),
        seq: 1,
        event_type: String::from("cap.error"),
        input: String::from("no_fs_capability: missing fs cap"),
        outcome: false,
        ts_seed: 9,
    }];
    let events = trace_from_raw(raw.clone()).expect("known kind");
    assert_eq!(events.len(), 1);
    assert_eq!(events[0].event_type, EventType::CapError);
    assert_eq!(events[0].input, "no_fs_capability: missing fs cap");

    let mut bad = raw;
    bad[0].event_type = String::from("cap.bogus");
    assert!(trace_from_raw(bad).is_err());
}

#[test]
fn deterministic_timestamps_differ_across_seq() {
    let mut host = host_with(manifest_with_read(vec!["./workspace/*"]), 12345);
    let _ = host.execute_plugin("./workspace/a");
    let _ = host.execute_plugin("./workspace/b");
    let ev1 = host.trace().first().expect("event one");
    let ev2 = host.trace().get(1).expect("event two");
    assert_eq!(ev1.ts_seed, 8_166_419_713_379_829_776);
    assert_eq!(ev2.ts_seed, 10_553_447_931_939_622_718);
    assert_ne!(ev1.ts_seed, ev2.ts_seed);
}

#[test]
fn manifest_hash_binds_policy() {
    let host_a1 = host_with(manifest_with_read(vec!["./workspace/*"]), 1);
    let host_a2 = host_with(manifest_with_read(vec!["./workspace/*"]), 2);
    let host_b = host_with(manifest_with_read(vec!["./elsewhere/*"]), 1);
    // same policy, same fingerprint, whatever the seed or key
    assert_eq!(host_a1.manifest_hash(), host_a2.manifest_hash());
    // a different policy fingerprints differently
    assert_ne!(host_a1.manifest_hash(), host_b.manifest_hash());
    assert_eq!(host_a1.manifest_hash().len(), 64);
    assert!(host_a1.manifest_hash().chars().all(|c| c.is_ascii_hexdigit()));
}

#[test]
fn log_record_carries_event_fields() {
    let line = log_trace_event(1, EventType::CapCall, "./x", true, 5, "formatter-v1");
    assert_eq!(
        line,
        "seq=1 ts_seed=5 event_type=cap.call input=./x outcome=true plugin=formatter-v1"
    );
    let line2 = log_trace_event(12, EventType::CapError, "no_fs_capability: missing fs cap", false, 0, "p");
    assert_eq!(
        line2,
        "seq=12 ts_seed=0 event_type=cap.error input=no_fs_capability: missing fs cap outcome=false plugin=p"
    );
}

#[test]
fn event_type_names_round_trip() {
    assert_eq!(EventType::CapCall.as_str(), "cap.call");
    assert_eq!(EventType::CapError.as_str(), "cap.error");
    assert_eq!(EventType::from_str("cap.call"), Some(EventType::CapCall));
    assert_eq!(EventType::from_str("cap.error"), Some(EventType::CapError));
    assert_eq!(EventType::from_str("other"), None);

    let subtypes = [
        CapEventSubtype::InvalidPath,
        CapEventSubtype::NoFsCapability,
        CapEventSubtype::NoReadPatterns,
        CapEventSubtype::GlobMismatch,
        CapEventSubtype::InvalidGlob,
    ];
    for st in subtypes {
        assert_eq!(CapEventSubtype::from_str(st.as_str()), Some(st));
    }
    assert_eq!(CapEventSubtype::from_str("nonsense"), None);
    // the one conversion rule: only a mismatch counts as an evaluated check
    for st in subtypes {
        let expected = if st == CapEventSubtype::GlobMismatch {
            EventType::CapCall
        } else {
            EventType::CapError
        };
        assert_eq!(st.event_type(), expected);
    }
}

#[test]
fn bridge_status_encoding() {
    assert_eq!(status_of(&Ok(true)), HostStatus::Allowed);
    assert_eq!(status_of(&Err(CapError::GlobMismatch)), HostStatus::Denied);
    assert_eq!(status_of(&Err(CapError::NoFsCapability)), HostStatus::Error);
    assert_eq!(status_of(&Err(CapError::NoReadPatterns)), HostStatus::Error);
    assert_eq!(status_of(&Err(CapError::InvalidPath)), HostStatus::Error);
    assert_eq!(HostStatus::Allowed.code(), 1);
    assert_eq!(HostStatus::Denied.code(), 0);
    assert_eq!(HostStatus::Error.code(), -1);
    assert_eq!(status_allowed(), 1);
}

#[test]
fn error_messages_name_the_failure() {
    assert_eq!(CapError::NoFsCapability.message(), "No FS capability declared");
    assert_eq!(CapError::NoReadPatterns.message(), "No read patterns defined");
    assert_eq!(CapError::GlobMismatch.message(), "Path does not match any glob pattern");
    assert_eq!(
        CapError::InvalidPath.message(),
        "Invalid path provided (empty or invalid UTF-8)"
    );
}
