//! The step model: builder defaults and setters, environment insertion, and
//! the exact wire encoding of each step kind.

use ci_tool::buildkite::{BlockState, BlockStep, Pipeline, Step, WaitStep};
use ci_tool::command::{default_timeout, CommandStep};
use ci_tool::trigger::{TriggerBuildSpec, TriggerStep};

#[test]
fn command_builder_applies_documented_defaults() {
    assert_eq!(default_timeout(), 20);
    let b = CommandStep::builder();
    let s = b.build("k".to_string(), vec!["echo".to_string(), "hi".to_string()]);
    assert_eq!(s.key, "k");
    assert_eq!(s.command, "echo hi");
    assert_eq!(s.timeout_in_minutes, 20);
    assert!(!s.allow_dependency_failure);
    assert!(s.concurrency_group.is_none());
    assert!(s.depends_on.is_none());
    assert!(s.env.is_none());
    assert!(s.label.is_none());
}

#[test]
fn command_builder_setters_are_kept() {
    let mut b = CommandStep::builder();
    b.set_allow_dependency_failure(true)
        .set_concurrency_group("g".to_string())
        .set_depends_on(vec!["a".to_string(), "b".to_string()])
        .set_label("L".to_string())
        .set_timeout_in_minutes(7);
    let s = b.build("k".to_string(), vec!["run".to_string()]);
    assert!(s.allow_dependency_failure);
    assert_eq!(s.concurrency_group.as_deref(), Some("g"));
    assert_eq!(s.depends_on, Some(vec!["a".to_string(), "b".to_string()]));
    assert_eq!(s.label.as_deref(), Some("L"));
    assert_eq!(s.timeout_in_minutes, 7);
}

#[test]
fn env_insertion_replaces_and_keeps_order() {
    let mut b = CommandStep::builder();
    b.set_env("A".to_string(), "1".to_string());
    b.set_env("B".to_string(), "2".to_string());
    b.set_env("A".to_string(), "3".to_string());
    let s = b.build("k".to_string(), vec!["run".to_string()]);
    assert_eq!(
        s.env,
        Some(vec![
            ("A".to_string(), "3".to_string()),
            ("B".to_string(), "2".to_string()),
        ])
    );
}

#[test]
fn command_step_wire_encoding_is_exact() {
    let mut b = CommandStep::builder();
    b.set_allow_dependency_failure(true)
        .set_concurrency_group("g".to_string())
        .set_depends_on(vec!["a".to_string(), "b".to_string()])
        .set_label("L".to_string());
    b.set_env("K".to_string(), "V".to_string());
    let s = b.build("k".to_string(), vec!["echo".to_string(), "hi".to_string()]);
    let mut out = String::new();
    s.encode_json_onto(&mut out);
    assert_eq!(
        out,
        "{\"type\":\"command\",\"allow_dependency_failure\":true,\"command\":\"echo hi\",\"concurrency_group\":\"g\",\"depends_on\":[\"a\",\"b\"],\"env\":{\"K\":\"V\"},\"key\":\"k\",\"label\":\"L\",\"timeout_in_minutes\":20}"
    );
    let v: serde_json::Value = serde_json::from_str(&out).expect("valid JSON");
    assert_eq!(v["type"], serde_json::Value::String("command".to_string()));
}

#[test]
fn command_step_encoding_omits_absent_fields() {
    let b = CommandStep::builder();
    let s = b.build("k".to_string(), vec!["run".to_string()]);
    let mut out = String::new();
    s.encode_json_onto(&mut out);
    assert_eq!(
        out,
        "{\"type\":\"command\",\"allow_dependency_failure\":false,\"command\":\"run\",\"key\":\"k\",\"timeout_in_minutes\":20}"
    );
    assert!(!out.contains("null"));
}

#[test]
fn wait_builder_and_wire_encoding() {
    let mut b = WaitStep::builder();
    b.set_allow_dependency_failure(true).set_continue_on_failure(true);
    let w = b.build("w".to_string());
    assert!(w.allow_dependency_failure);
    assert!(w.continue_on_failure);
    assert!(w.depends_on.is_none());
    let mut out = String::new();
    w.encode_json_onto(&mut out);
    assert_eq!(
        out,
        "{\"type\":\"wait\",\"allow_dependency_failure\":true,\"continue_on_failure\":true,\"key\":\"w\"}"
    );
}

#[test]
fn wait_depends_on_is_encoded_when_set() {
    let mut b = WaitStep::builder();
    b.set_depends_on(vec!["x".to_string()]);
    let w = b.build("w".to_string());
    let mut out = String::new();
    w.encode_json_onto(&mut out);
    assert_eq!(
        out,
        "{\"type\":\"wait\",\"allow_dependency_failure\":false,\"continue_on_failure\":false,\"depends_on\":[\"x\"],\"key\":\"w\"}"
    );
}

#[test]
fn block_step_wire_encoding() {
    let b = BlockStep {
        block: "gate".to_string(),
        blocked_state: BlockState::Passed,
        depends_on: None,
        label: Some("L".to_string()),
    };
    let mut out = String::new();
    b.encode_json_onto(&mut out);
    assert_eq!(
        out,
        "{\"type\":\"block\",\"block\":\"gate\",\"blocked_state\":\"passed\",\"label\":\"L\"}"
    );
    let f = BlockStep {
        block: "g".to_string(),
        blocked_state: BlockState::Failed,
        depends_on: None,
        label: None,
    };
    let mut out2 = String::new();
    f.encode_json_onto(&mut out2);
    assert!(out2.contains("\"blocked_state\":\"failed\""));
    let r = BlockStep {
        block: "g".to_string(),
        blocked_state: BlockState::Running,
        depends_on: None,
        label: None,
    };
    let mut out3 = String::new();
    r.encode_json_onto(&mut out3);
    assert!(out3.contains("\"blocked_state\":\"running\""));
}

#[test]
fn trigger_builder_and_wire_encoding() {
    let mut b = TriggerBuildSpec::builder();
    b.set_branch("main".to_string()).set_commit("deadbeef".to_string());
    b.set_env("K".to_string(), "V".to_string());
    b.set_meta_data("m".to_string(), "1".to_string());
    b.set_label("L".to_string()).set_message("M".to_string());
    b.add_depends_on("build-a".to_string());
    let spec = b.build("other-pipeline".to_string());
    assert_eq!(spec.key, "other-pipeline");
    assert_eq!(spec.branch.as_deref(), Some("main"));
    assert_eq!(spec.label.as_deref(), Some("L"));
    assert_eq!(spec.message.as_deref(), Some("M"));
    assert_eq!(spec.depends_on, Some(vec!["build-a".to_string()]));
    let t = TriggerStep { is_async: true, build: spec };
    let mut out = String::new();
    t.encode_json_onto(&mut out);
    assert_eq!(
        out,
        "{\"type\":\"trigger\",\"async\":true,\"build\":{\"key\":\"other-pipeline\",\"branch\":\"main\",\"commit\":\"deadbeef\",\"env\":{\"K\":\"V\"},\"label\":\"L\",\"message\":\"M\",\"meta_data\":{\"m\":\"1\"},\"depends_on\":[\"build-a\"]}}"
    );
}

#[test]
fn pipeline_document_encoding() {
    let w = WaitStep::builder().build("w".to_string());
    let p = Pipeline { steps: vec![Step::Wait(w)], env: None };
    assert_eq!(
        p.encode_json(),
        "{\"steps\":[{\"type\":\"wait\",\"allow_dependency_failure\":false,\"continue_on_failure\":false,\"key\":\"w\"}]}"
    );
    let w2 = WaitStep::builder().build("w".to_string());
    let p2 = Pipeline {
        steps: vec![Step::Wait(w2)],
        env: Some(vec![("CI".to_string(), "1".to_string())]),
    };
    let text = p2.encode_json();
    assert!(text.ends_with(",\"env\":{\"CI\":\"1\"}}"));
    let v: serde_json::Value = serde_json::from_str(&text).expect("valid JSON");
    assert!(v["steps"].is_array());
}

#[test]
fn largest_timeout_is_rendered_in_full() {
    let mut b = CommandStep::builder();
    b.set_timeout_in_minutes(65535);
    let s = b.build("k".to_string(), vec!["run".to_string()]);
    let mut out = String::new();
    s.encode_json_onto(&mut out);
    assert!(out.ends_with("\"timeout_in_minutes\":65535}"));
}

#[test]
fn control_characters_are_escaped_as_unicode() {
    let b = CommandStep::builder();
    let s = CommandStep {
        command: "a\u{1}b\u{1f}c".to_string(),
        ..b.build("k".to_string(), vec!["x".to_string()])
    };
    let mut out = String::new();
    s.encode_json_onto(&mut out);
    assert!(out.contains("a\\u0001b\\u001fc"));
}

#[test]
fn command_encoding_escapes_special_characters() {
    let b = CommandStep::builder();
    let s = CommandStep {
        command: "echo \"x\\y\"\n\u{1}".to_string(),
        ..b.build("k".to_string(), vec!["placeholder".to_string()])
    };
    let mut out = String::new();
    s.encode_json_onto(&mut out);
    let v: serde_json::Value = serde_json::from_str(&out).expect("valid JSON");
    assert_eq!(
        v["command"],
        serde_json::Value::String("echo \"x\\y\"\n\u{1}".to_string())
    );
}
