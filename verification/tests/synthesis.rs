//! The synthesizer: the end-to-end shape, barrier insertion, tail shape,
//! determinism, validation, and placeholder substitution.

use ci_tool::build_info::{BuildEvaluation, BuildTargetType, FoundDerivationBuild};
use ci_tool::buildkite::Step;
use ci_tool::synthesis::{make_buildkite_pipeline, SynthesisError};

fn target(name: &str, kind: BuildTargetType, tag: &str) -> FoundDerivationBuild {
    FoundDerivationBuild {
        name: name.to_string(),
        build_type: kind,
        path: "/tmp/out".to_string(),
        tag: tag.to_string(),
    }
}

fn one_build_eval() -> BuildEvaluation {
    BuildEvaluation {
        builds: vec![("a".to_string(), target("pkgA", BuildTargetType::Package, "a"))],
        steps: vec![],
    }
}

// Evaluator-supplied steps carry their command as one pre-formed string,
// so build the step literally instead of going through the quoting builder.
fn extra_command_step(key: &str, command: &str) -> Step {
    Step::Command(ci_tool::command::CommandStep {
        allow_dependency_failure: false,
        command: command.to_string(),
        concurrency_group: None,
        depends_on: None,
        env: None,
        key: key.to_string(),
        label: None,
        timeout_in_minutes: 20,
    })
}

#[test]
fn end_to_end_single_build_no_extra_steps() {
    let p = make_buildkite_pipeline("ci".to_string(), one_build_eval()).expect("valid");
    assert_eq!(p.steps.len(), 3);
    match &p.steps[0] {
        Step::Command(c) => {
            assert_eq!(c.key, "build-a");
            assert_eq!(c.command, "ci build a");
            assert_eq!(c.label.as_deref(), Some(":hammer_and_wrench: :package: pkgA"));
            assert_eq!(c.timeout_in_minutes, 20);
            assert!(!c.allow_dependency_failure);
        }
        _ => panic!("first step must be the build command"),
    }
    match &p.steps[1] {
        Step::Wait(w) => {
            assert_eq!(w.key, "wait-final");
            assert!(w.allow_dependency_failure);
            assert!(w.continue_on_failure);
        }
        _ => panic!("second step must be the final barrier"),
    }
    match &p.steps[2] {
        Step::Command(c) => {
            assert_eq!(c.key, "collect-results");
            assert_eq!(c.command, "ci collect");
            assert_eq!(c.timeout_in_minutes, 3);
            assert!(c.allow_dependency_failure);
            assert_eq!(c.label.as_deref(), Some(":shopping_trolley: collect results"));
        }
        _ => panic!("last step must be the collection command"),
    }
    // No wait-builds barrier anywhere, since no extra steps were supplied.
    for s in &p.steps {
        if let Step::Wait(w) = s {
            assert_ne!(w.key, "wait-builds");
        }
    }
}

#[test]
fn synthesis_is_deterministic() {
    let a = make_buildkite_pipeline("ci".to_string(), one_build_eval()).expect("valid");
    let b = make_buildkite_pipeline("ci".to_string(), one_build_eval()).expect("valid");
    assert_eq!(a.encode_json(), b.encode_json());
}

#[test]
fn barrier_present_only_with_extra_steps() {
    let eval = BuildEvaluation {
        builds: vec![
            ("a".to_string(), target("pkgA", BuildTargetType::Package, "a")),
            ("b".to_string(), target("shellB", BuildTargetType::DevShell, "b")),
        ],
        steps: vec![extra_command_step("deploy", "deploy.sh")],
    };
    let p = make_buildkite_pipeline("ci".to_string(), eval).expect("valid");
    // build-a, build-b, wait-builds, deploy, wait-final, collect-results
    assert_eq!(p.steps.len(), 6);
    match &p.steps[2] {
        Step::Wait(w) => {
            assert_eq!(w.key, "wait-builds");
            assert!(!w.allow_dependency_failure);
            assert!(!w.continue_on_failure);
        }
        _ => panic!("barrier must follow the build steps"),
    }
    match &p.steps[3] {
        Step::Command(c) => assert_eq!(c.key, "deploy"),
        _ => panic!("extra step must follow the barrier"),
    }
}

#[test]
fn tail_is_tolerant_barrier_then_collection() {
    for eval in [
        one_build_eval(),
        BuildEvaluation { builds: vec![], steps: vec![] },
        BuildEvaluation {
            builds: vec![],
            steps: vec![extra_command_step("x", "run.sh")],
        },
    ] {
        let p = make_buildkite_pipeline("ci".to_string(), eval).expect("valid");
        let n = p.steps.len();
        assert!(n >= 2);
        match &p.steps[n - 2] {
            Step::Wait(w) => {
                assert_eq!(w.key, "wait-final");
                assert!(w.allow_dependency_failure);
                assert!(w.continue_on_failure);
            }
            _ => panic!("second-to-last step must be the final barrier"),
        }
        match &p.steps[n - 1] {
            Step::Command(c) => {
                assert_eq!(c.key, "collect-results");
                assert_eq!(c.timeout_in_minutes, 3);
                assert!(c.allow_dependency_failure);
            }
            _ => panic!("last step must be the collection command"),
        }
    }
}

#[test]
fn synthesized_keys_are_unique() {
    let eval = BuildEvaluation {
        builds: vec![
            ("a".to_string(), target("pkgA", BuildTargetType::Package, "a")),
            ("b".to_string(), target("pkgB", BuildTargetType::Package, "b")),
        ],
        steps: vec![extra_command_step("deploy", "deploy.sh")],
    };
    let p = make_buildkite_pipeline("ci".to_string(), eval).expect("valid");
    let mut keys: Vec<String> = Vec::new();
    for s in &p.steps {
        match s {
            Step::Command(c) => keys.push(c.key.clone()),
            Step::Wait(w) => keys.push(w.key.clone()),
            Step::Trigger(t) => keys.push(t.build.key.clone()),
            Step::Block(_) => {}
        }
    }
    let mut sorted = keys.clone();
    sorted.sort();
    sorted.dedup();
    assert_eq!(sorted.len(), keys.len());
}

#[test]
fn duplicate_target_keys_are_rejected() {
    let eval = BuildEvaluation {
        builds: vec![
            ("a".to_string(), target("pkgA", BuildTargetType::Package, "a")),
            ("a".to_string(), target("other", BuildTargetType::Package, "o")),
        ],
        steps: vec![],
    };
    match make_buildkite_pipeline("ci".to_string(), eval) {
        Err(SynthesisError::DuplicateKey(k)) => assert_eq!(k, "build-a"),
        _ => panic!("duplicate keys must be rejected"),
    }
}

#[test]
fn colliding_extra_step_key_is_rejected() {
    let eval = BuildEvaluation {
        builds: vec![("a".to_string(), target("pkgA", BuildTargetType::Package, "a"))],
        steps: vec![extra_command_step("build-a", "again.sh")],
    };
    match make_buildkite_pipeline("ci".to_string(), eval) {
        Err(SynthesisError::DuplicateKey(k)) => assert_eq!(k, "build-a"),
        _ => panic!("a colliding extra key must be rejected"),
    }
}

fn trigger_step(key: &str) -> Step {
    let b = ci_tool::trigger::TriggerBuildSpec::builder();
    Step::Trigger(ci_tool::trigger::TriggerStep {
        is_async: false,
        build: b.build(key.to_string()),
    })
}

#[test]
fn triggers_sharing_a_key_are_rejected() {
    let eval = BuildEvaluation {
        builds: vec![],
        steps: vec![trigger_step("other"), trigger_step("other")],
    };
    match make_buildkite_pipeline("ci".to_string(), eval) {
        Err(SynthesisError::DuplicateKey(k)) => assert_eq!(k, "other"),
        _ => panic!("two triggers sharing a key must be rejected"),
    }
}

#[test]
fn trigger_key_colliding_with_a_build_key_is_rejected() {
    let eval = BuildEvaluation {
        builds: vec![("a".to_string(), target("pkgA", BuildTargetType::Package, "a"))],
        steps: vec![trigger_step("build-a")],
    };
    match make_buildkite_pipeline("ci".to_string(), eval) {
        Err(SynthesisError::DuplicateKey(k)) => assert_eq!(k, "build-a"),
        _ => panic!("a trigger key colliding with a build key must be rejected"),
    }
}

#[test]
fn dependency_on_a_trigger_key_is_accepted() {
    let mut dependent = extra_command_step("deploy", "deploy.sh");
    if let Step::Command(c) = &mut dependent {
        c.depends_on = Some(vec!["other".to_string()]);
    }
    let eval = BuildEvaluation {
        builds: vec![],
        steps: vec![trigger_step("other"), dependent],
    };
    assert!(make_buildkite_pipeline("ci".to_string(), eval).is_ok());
}

#[test]
fn dangling_dependency_is_rejected() {
    let mut dangling = extra_command_step("deploy", "deploy.sh");
    if let Step::Command(c) = &mut dangling {
        c.depends_on = Some(vec!["no-such-step".to_string()]);
    }
    let eval = BuildEvaluation {
        builds: vec![("a".to_string(), target("pkgA", BuildTargetType::Package, "a"))],
        steps: vec![dangling],
    };
    match make_buildkite_pipeline("ci".to_string(), eval) {
        Err(SynthesisError::DanglingDependency(d)) => assert_eq!(d, "no-such-step"),
        _ => panic!("a dangling dependency must be rejected"),
    }
}

#[test]
fn dependency_on_synthesized_key_is_accepted() {
    let mut dependent = extra_command_step("deploy", "deploy.sh");
    if let Step::Command(c) = &mut dependent {
        c.depends_on = Some(vec!["build-a".to_string()]);
    }
    let eval = BuildEvaluation {
        builds: vec![("a".to_string(), target("pkgA", BuildTargetType::Package, "a"))],
        steps: vec![dependent],
    };
    assert!(make_buildkite_pipeline("ci".to_string(), eval).is_ok());
}

#[test]
fn placeholder_is_substituted_verbatim() {
    let eval = BuildEvaluation {
        builds: vec![],
        steps: vec![extra_command_step("deploy", "run @tool@ deploy --target x")],
    };
    let p = make_buildkite_pipeline("my tool".to_string(), eval).expect("valid");
    match &p.steps[1] {
        Step::Command(c) => {
            assert_eq!(c.command, "run my tool deploy --target x");
        }
        _ => panic!("extra step expected after barrier"),
    }
}

#[test]
fn text_without_placeholder_is_unaltered() {
    let eval = BuildEvaluation {
        builds: vec![],
        steps: vec![extra_command_step("deploy", "run deploy --target x")],
    };
    let p = make_buildkite_pipeline("ci".to_string(), eval).expect("valid");
    match &p.steps[1] {
        Step::Command(c) => assert_eq!(c.command, "run deploy --target x"),
        _ => panic!("extra step expected after barrier"),
    }
}

#[test]
fn block_and_trigger_steps_pass_through_unchanged() {
    let block = Step::Block(ci_tool::buildkite::BlockStep {
        block: "release gate".to_string(),
        blocked_state: ci_tool::buildkite::BlockState::Passed,
        depends_on: Some(vec!["build-a".to_string()]),
        label: None,
    });
    let mut tb = ci_tool::trigger::TriggerBuildSpec::builder();
    tb.set_commit("deadbeef".to_string());
    let trigger = Step::Trigger(ci_tool::trigger::TriggerStep {
        is_async: false,
        build: tb.build("other".to_string()),
    });
    let eval = BuildEvaluation {
        builds: vec![("a".to_string(), target("pkgA", BuildTargetType::Package, "a"))],
        steps: vec![block, trigger],
    };
    let p = make_buildkite_pipeline("ci".to_string(), eval).expect("valid");
    // build-a, wait-builds, block, trigger, wait-final, collect-results
    assert_eq!(p.steps.len(), 6);
    match &p.steps[2] {
        Step::Block(b) => {
            assert_eq!(b.block, "release gate");
            assert_eq!(b.depends_on, Some(vec!["build-a".to_string()]));
        }
        _ => panic!("block step expected after the barrier"),
    }
    match &p.steps[3] {
        Step::Trigger(t) => {
            assert!(!t.is_async);
            assert_eq!(t.build.key, "other");
            assert_eq!(t.build.commit.as_deref(), Some("deadbeef"));
        }
        _ => panic!("trigger step expected after the block step"),
    }
}

#[test]
fn command_with_spaces_is_quoted_in_build_steps() {
    let p = make_buildkite_pipeline("my tool".to_string(), one_build_eval()).expect("valid");
    match &p.steps[0] {
        Step::Command(c) => assert_eq!(c.command, "'my tool' build a"),
        _ => panic!("first step must be the build command"),
    }
}

#[test]
fn exit_code_passes_through_and_missing_code_fails() {
    assert_eq!(ci_tool::exit_code_or_failure(Some(0)), 0);
    assert_eq!(ci_tool::exit_code_or_failure(Some(7)), 7);
    assert_eq!(ci_tool::exit_code_or_failure(None), 1);
}

#[test]
fn nix_action_plan_targets_the_flake_attribute() {
    let plan = ci_tool::synthesis::nix_action(
        vec!["build".to_string(), "--no-link".to_string()],
        "demo",
    );
    assert_eq!(plan.program, "nix");
    assert_eq!(plan.args, vec!["build", "--no-link", ".#demo"]);
    assert!(plan.current_dir.is_none());
    assert!(plan.stdin.is_none());
}

#[test]
fn collection_succeeds_with_zero() {
    let args = ci_tool::flags::BuildkiteArgs {
        commit: "deadbeef".to_string(),
        branch: None,
        tag: None,
        repository: "repo".to_string(),
        path: "/work".to_string(),
        pipeline_id: "p1".to_string(),
        pipeline_slug: "proj".to_string(),
    };
    assert_eq!(ci_tool::synthesis::collect_final_pipeline_state(args).unwrap(), 0);
}
