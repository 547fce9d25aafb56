use base64::Engine;
use captra::{load_manifest, load_trace, CapError, EventType, HostState, ManifestError};
use ed25519_dalek::SigningKey;
use rand::rngs::OsRng;

const EXAMPLE_MANIFEST: &str = r#"
{
  "plugin": "formatter-v1",
  "version": "0.1",
  "capabilities": {
    "fs": {
      "read": ["./workspace/*"],
      "write": []
    }
  },
  "issued_by": "dev-team"
}
"#;

fn make_host_with_seed(seed: u64) -> HostState {
    let manifest = load_manifest(EXAMPLE_MANIFEST).expect("example manifest must load");
    let mut csprng = OsRng;
    let keypair = SigningKey::generate(&mut csprng);
    HostState::new(manifest, seed, keypair)
}

#[test]
fn manifest_manifest_loader() {
    let manifest = load_manifest(EXAMPLE_MANIFEST).expect("Load failed");
    assert_eq!(manifest.plugin, "formatter-v1");
    assert_eq!(manifest.version, "0.1");
    assert_eq!(manifest.issued_by, "dev-team");

    let caps = manifest.capabilities;
    let fs_cap = caps.fs.expect("fs capability expected");
    let read_patterns = fs_cap.read.expect("read patterns expected");
    assert_eq!(read_patterns, vec!["./workspace/*"]);
    let write_patterns = fs_cap.write.expect("write patterns expected");
    assert!(write_patterns.is_empty());
}

#[test]
fn manifest_manifest_validation_invalid() {
    let invalid_json = r#"
        {
          "plugin": "",
          "version": "0.1",
          "capabilities": {
            "fs": {
              "read": []
            }
          },
          "issued_by": "dev"
        }
    "#;
    assert!(load_manifest(invalid_json).is_err(), "Expected validation error");

    let glob_invalid_json = r#"
        {
          "plugin": "test",
          "version": "0.1",
          "capabilities": {
            "fs": {
              "read": [
                "["
              ]
            }
          },
          "issued_by": "dev"
        }
    "#;
    let err = load_manifest(glob_invalid_json).expect_err("Expected validation error");
    assert!(
        matches!(&err, ManifestError::InvalidGlob { .. }),
        "Expected InvalidGlob, got: {err:?}"
    );
}

#[test]
fn host_enforcement_allowed() {
    let mut host = make_host_with_seed(12_345);

    let result = host.execute_plugin("./workspace/config.toml").expect("allow expected");
    assert!(result);

    assert_eq!(host.trace().len(), 1);
    let ev = host.trace().first().expect("one event");

    assert_eq!(ev.run_id, "captra-run-12345");
    assert_eq!(ev.seq, 1);
    assert!(matches!(ev.event_type, EventType::CapCall));
    assert_eq!(ev.input, "./workspace/config.toml");
    assert!(ev.outcome);
    assert_eq!(ev.ts_seed, 8_166_419_713_379_829_776);
}

#[test]
fn host_enforcement_denied() {
    let mut host = make_host_with_seed(12_345);

    let err = host.execute_plugin("/etc/passwd").expect_err("deny expected");
    assert!(matches!(err, CapError::GlobMismatch));

    assert_eq!(host.trace().len(), 1);
    let ev = host.trace().first().expect("one event");

    assert_eq!(ev.run_id, "captra-run-12345");
    assert_eq!(ev.seq, 1);
    assert!(matches!(ev.event_type, EventType::CapCall));
    assert!(!ev.outcome);
    assert!(ev.input.starts_with("glob_mismatch: "));
    assert_eq!(ev.ts_seed, 8_166_419_713_379_829_776);
}

#[test]
fn host_enforcement_signed() {
    let mut host = make_host_with_seed(12_345);

    let _ = host.execute_plugin("./workspace/config.toml").expect("allow expected");

    let signed = host.sign_current_trace().expect("signing expected");
    assert_eq!(signed.run_id, "captra-run-12345");

    let sig_bytes = base64::engine::general_purpose::STANDARD
        .decode(&signed.signature)
        .expect("base64 decode");
    assert_eq!(sig_bytes.len(), 64);
    assert!(!signed.trace_json.is_empty());
}

#[test]
fn host_enforcement_save_round_trip() {
    let mut host = make_host_with_seed(12_345);

    let _ = host.execute_plugin("./workspace/config.toml").expect("allow expected");
    let _ = host.execute_plugin("/etc/passwd").expect_err("deny expected");

    // serialize and read back
    let json = host.get_trace_json();
    let loaded = load_trace(&json).expect("Load failed");
    assert_eq!(loaded.len(), 2);

    let current_trace = host.trace();
    assert_eq!(&loaded, current_trace);

    let loaded_first = loaded.first().expect("first loaded");
    let current_first = current_trace.first().expect("first event");
    assert_eq!(loaded_first, current_first);
}

#[test]
fn manifest_trace_reproducibility() {
    let manifest = load_manifest(EXAMPLE_MANIFEST).expect("Load failed");

    let fixed_seed = 12_345;
    let mut csprng1 = OsRng;
    let keypair1 = SigningKey::generate(&mut csprng1);

    let mut host1 = HostState::new(manifest.clone(), fixed_seed, keypair1);
    let out1 = host1.execute_plugin("./allowed.txt").expect_err("deny expected");
    assert_eq!(out1, CapError::GlobMismatch);
    let trace1 = host1.get_trace_json();

    let mut csprng2 = OsRng;
    let keypair2 = SigningKey::generate(&mut csprng2);
    let mut host2 = HostState::new(manifest, fixed_seed, keypair2);
    let out2 = host2.execute_plugin("./allowed.txt").expect_err("deny expected");
    assert_eq!(out2, CapError::GlobMismatch);
    let trace2 = host2.get_trace_json();

    let parsed1 = load_trace(&trace1).expect("parse expected");
    let parsed2 = load_trace(&trace2).expect("parse expected");
    assert_eq!(parsed1, parsed2);
    assert_eq!(parsed1[0].ts_seed, parsed2[0].ts_seed);
}
