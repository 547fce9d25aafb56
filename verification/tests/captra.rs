use base64::Engine;
use captra::{load_manifest, load_trace, CapError, EventType, HostState, ManifestError};
use ed25519_dalek::SigningKey;
use rand::rngs::OsRng;

const EXAMPLE_MANIFEST: &str = r#"
{
  "plugin": "formatter-v1",
  "version": "0.1",
  "capabilities": {
    "fs": {
      "read": ["./workspace/*"],
      "write": []
    }
  },
  "issued_by": "dev-team"
}
"#;

#[test]
fn captra_manifest_loader() {
    let manifest = load_manifest(EXAMPLE_MANIFEST).expect("Load failed");
    assert_eq!(manifest.plugin, "formatter-v1");
    assert_eq!(manifest.version, "0.1");
    assert_eq!(manifest.issued_by, "dev-team");

    let caps = manifest.capabilities;
    let fs_cap = caps.fs.expect("fs capability expected");
    let read_patterns = fs_cap.read.expect("read patterns expected");
    assert_eq!(read_patterns, vec!["./workspace/*"]);
    let write_patterns = fs_cap.write.expect("write patterns expected");
    assert!(write_patterns.is_empty());
}

#[test]
fn captra_manifest_validation_invalid() {
    // invalid manifest: empty plugin
    let invalid_json = r#"
        {
          "plugin": "",
          "version": "0.1",
          "capabilities": {
            "fs": {
              "read": []
            }
          },
          "issued_by": "dev"
        }
    "#;
    assert!(load_manifest(invalid_json).is_err(), "Expected validation error");

    let glob_invalid_json = r#"
        {
          "plugin": "test",
          "version": "0.1",
          "capabilities": {
            "fs": {
              "read": [
                "["
              ]
            }
          },
          "issued_by": "dev"
        }
    "#;
    let err = load_manifest(glob_invalid_json).expect_err("Expected validation error");
    assert!(
        matches!(&err, ManifestError::InvalidGlob { .. }),
        "Expected InvalidGlob, got: {err:?}"
    );
}

#[test]
fn captra_host_enforcement_with_trace() {
    let manifest = load_manifest(EXAMPLE_MANIFEST).expect("Load failed");
    let fixed_seed = 12345;
    let mut csprng = OsRng;
    let keypair = SigningKey::generate(&mut csprng);
    let mut host = HostState::new(manifest, fixed_seed, keypair);

    assert_eq!(host.run_id(), "captra-run-12345");

    // allowed
    let out1 = host.execute_plugin("./workspace/config.toml").expect("allow expected");
    assert!(out1);
    // denied
    let out2 = host.execute_plugin("/etc/passwd").expect_err("deny expected");
    assert_eq!(out2, CapError::GlobMismatch);

    {
        assert_eq!(host.trace().len(), 2);

        let trace1 = host.trace().first().expect("first event");
        assert_eq!(trace1.seq, 1);
        assert_eq!(trace1.event_type, EventType::CapCall);
        assert_eq!(trace1.input, "./workspace/config.toml");
        assert!(trace1.outcome);
        assert_eq!(trace1.ts_seed, 8_166_419_713_379_829_776);
        assert_ne!(trace1.ts_seed, 0);

        let trace2 = host.trace().get(1).expect("second event");
        assert_eq!(trace2.run_id, "captra-run-12345");
        assert_eq!(trace2.seq, 2);
        assert_eq!(trace2.event_type, EventType::CapCall);
        assert!(!trace2.outcome);
        assert!(trace2.input.starts_with("glob_mismatch: "));
        assert_eq!(trace2.ts_seed, 10_553_447_931_939_622_718);
        assert_ne!(trace1.ts_seed, trace2.ts_seed);
    }

    let signed = host.sign_current_trace().expect("signing expected");
    assert_eq!(signed.run_id, "captra-run-12345");

    let sig_bytes = base64::engine::general_purpose::STANDARD
        .decode(&signed.signature)
        .expect("Base64 decode");
    assert_eq!(sig_bytes.len(), 64);
    assert!(!signed.trace_json.is_empty());

    // serialization round trip
    let json = host.get_trace_json();
    let loaded_trace = load_trace(&json).expect("Load failed");
    assert_eq!(loaded_trace.len(), 2);

    let trace1_refetched = host.trace().first().expect("first event");
    let trace2_refetched = host.trace().get(1).expect("second event");
    let loaded_trace1 = loaded_trace.first().expect("first loaded");
    let loaded_trace2 = loaded_trace.get(1).expect("second loaded");

    assert_eq!(trace1_refetched, loaded_trace1);
    assert_eq!(trace2_refetched, loaded_trace2);
}

#[test]
fn captra_trace_reproducibility() {
    let manifest = load_manifest(EXAMPLE_MANIFEST).expect("Load failed");

    let fixed_seed = 12345;
    let mut csprng1 = OsRng;
    let keypair1 = SigningKey::generate(&mut csprng1);

    let mut host1 = HostState::new(manifest.clone(), fixed_seed, keypair1);
    let out1 = host1.execute_plugin("./allowed.txt").expect_err("deny expected");
    assert_eq!(out1, CapError::GlobMismatch);
    let trace1 = host1.get_trace_json();

    let mut csprng2 = OsRng;
    let keypair2 = SigningKey::generate(&mut csprng2);
    let mut host2 = HostState::new(manifest, fixed_seed, keypair2);
    let out2 = host2.execute_plugin("./allowed.txt").expect_err("deny expected");
    assert_eq!(out2, CapError::GlobMismatch);
    let trace2 = host2.get_trace_json();

    let parsed1 = load_trace(&trace1).expect("parse expected");
    let parsed2 = load_trace(&trace2).expect("parse expected");
    assert_eq!(parsed1, parsed2);
    assert_eq!(parsed1[0].ts_seed, parsed2[0].ts_seed);
}
