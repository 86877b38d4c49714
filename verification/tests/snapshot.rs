//! The canonical snapshot encoding: byte-identical re-encoding, exact bytes,
//! round trip through the decoder, and agreement with an independent
//! canonical-JSON implementation.

use ci_tool::build_info::{CIRunState, PipelineInfo};

fn sample_full() -> CIRunState {
    CIRunState {
        commit: "deadbeef".to_string(),
        branch: Some("main".to_string()),
        tag: Some("v1.2.3".to_string()),
        pipeline: PipelineInfo {
            id: "p1".to_string(),
            slug: "proj".to_string(),
        },
        repo: "git@example.com:demo/repo.git".to_string(),
    }
}

fn sample_minimal() -> CIRunState {
    CIRunState {
        commit: "deadbeef".to_string(),
        branch: None,
        tag: None,
        pipeline: PipelineInfo {
            id: "p1".to_string(),
            slug: "proj".to_string(),
        },
        repo: "repo".to_string(),
    }
}

#[test]
fn encoding_is_byte_identical_across_calls() {
    let a = sample_full().encode_canonical();
    let b = sample_full().encode_canonical();
    assert_eq!(a, b);
    let c = sample_minimal().encode_canonical();
    let d = sample_minimal().encode_canonical();
    assert_eq!(c, d);
}

#[test]
fn encoding_exact_bytes_full() {
    let got = sample_full().encode_canonical();
    assert_eq!(
        got,
        "{\"branch\":\"main\",\"commit\":\"deadbeef\",\"pipeline\":{\"id\":\"p1\",\"slug\":\"proj\"},\"repository\":\"git@example.com:demo/repo.git\",\"tag\":\"v1.2.3\"}"
    );
}

#[test]
fn encoding_exact_bytes_minimal() {
    let got = sample_minimal().encode_canonical();
    assert_eq!(
        got,
        "{\"commit\":\"deadbeef\",\"pipeline\":{\"id\":\"p1\",\"slug\":\"proj\"},\"repository\":\"repo\"}"
    );
}

#[test]
fn encode_then_decode_round_trips() {
    for st in [sample_full(), sample_minimal()] {
        let encoded = st.encode_canonical();
        let back = CIRunState::decode_canonical(&encoded).expect("decodes");
        assert!(back == st);
    }
}

#[test]
fn encode_then_decode_round_trips_with_escapes() {
    let st = CIRunState {
        commit: "a\"b\\c".to_string(),
        branch: Some("feat/\n\t\u{1}x".to_string()),
        tag: None,
        pipeline: PipelineInfo {
            id: "i d".to_string(),
            slug: "s\u{8}\u{c}\rg".to_string(),
        },
        repo: "re/po+x".to_string(),
    };
    let encoded = st.encode_canonical();
    let back = CIRunState::decode_canonical(&encoded).expect("decodes");
    assert!(back == st);
}

#[test]
fn decoder_rejects_non_canonical_text() {
    assert!(CIRunState::decode_canonical("").is_none());
    assert!(CIRunState::decode_canonical("{}").is_none());
    assert!(CIRunState::decode_canonical("not json").is_none());
    assert!(CIRunState::decode_canonical("{\"commit\":\"a\"}").is_none());
    // Trailing bytes after the closing brace are refused.
    let mut ok = sample_minimal().encode_canonical();
    ok.push(' ');
    assert!(CIRunState::decode_canonical(&ok).is_none());
}

#[test]
fn encoding_parses_as_json_with_expected_fields() {
    let encoded = sample_full().encode_canonical();
    let v: serde_json::Value = serde_json::from_str(&encoded).expect("valid JSON");
    assert_eq!(v["commit"], serde_json::Value::String("deadbeef".to_string()));
    assert_eq!(v["branch"], serde_json::Value::String("main".to_string()));
    assert_eq!(v["tag"], serde_json::Value::String("v1.2.3".to_string()));
    assert_eq!(v["pipeline"]["id"], serde_json::Value::String("p1".to_string()));
    assert_eq!(v["pipeline"]["slug"], serde_json::Value::String("proj".to_string()));
    assert_eq!(
        v["repository"],
        serde_json::Value::String("git@example.com:demo/repo.git".to_string())
    );
}

#[test]
fn encoding_agrees_with_independent_canonical_json() {
    let st = sample_full();
    let encoded = st.encode_canonical();

    let mut pipeline = serde_json::Map::new();
    pipeline.insert(
        "id".to_string(),
        serde_json::Value::String("p1".to_string()),
    );
    pipeline.insert(
        "slug".to_string(),
        serde_json::Value::String("proj".to_string()),
    );
    let mut obj = serde_json::Map::new();
    obj.insert(
        "commit".to_string(),
        serde_json::Value::String("deadbeef".to_string()),
    );
    obj.insert(
        "branch".to_string(),
        serde_json::Value::String("main".to_string()),
    );
    obj.insert(
        "tag".to_string(),
        serde_json::Value::String("v1.2.3".to_string()),
    );
    obj.insert("pipeline".to_string(), serde_json::Value::Object(pipeline));
    obj.insert(
        "repository".to_string(),
        serde_json::Value::String("git@example.com:demo/repo.git".to_string()),
    );
    let value = serde_json::Value::Object(obj);
    let reference = json_digest::canonical_json(&value).expect("canonicalizes");
    assert_eq!(encoded, reference);
}

#[test]
fn state_file_path_is_under_checkout() {
    assert_eq!(
        ci_tool::build_info::state_file_path("/work/repo"),
        "/work/repo/build-info.json"
    );
}
