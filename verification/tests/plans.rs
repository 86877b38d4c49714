//! Command plans and invocation inputs: the exact subprocess invocations for
//! version control and the CI agent, argument splitting, and target labels.

use ci_tool::build_info::{BuildTargetType, FoundDerivationBuild};
use ci_tool::cli::Cli;
use ci_tool::flags::{Action, CliArgs, LogLevel};
use ci_tool::git;

#[test]
fn format_patch_renders_one_commit_to_stdout() {
    let p = git::format_patch("/work/repo");
    assert_eq!(p.program, "git");
    assert_eq!(p.args, vec!["format-patch", "-n1", "--stdout"]);
    assert_eq!(p.current_dir.as_deref(), Some("/work/repo"));
    assert!(p.env.is_empty());
    assert!(p.stdin.is_none());
}

#[test]
fn create_state_commit_stages_then_commits() {
    let plans = git::create_state_commit("/work/repo", "/work/repo/build-info.json");
    assert_eq!(plans.len(), 2);
    assert_eq!(plans[0].program, "git");
    assert_eq!(plans[0].args, vec!["add", "/work/repo/build-info.json"]);
    assert_eq!(plans[0].current_dir.as_deref(), Some("/work/repo"));
    assert_eq!(plans[1].program, "git");
    assert_eq!(
        plans[1].args,
        vec!["commit", "--message", "automated CI state commit"]
    );
    assert_eq!(
        plans[1].env,
        vec![
            (
                "GIT_COMMITTER_EMAIL".to_string(),
                "ci@denbeigh.cloud".to_string()
            ),
            ("GIT_COMMITTER_NAME".to_string(), "CI Bot".to_string()),
        ]
    );
}

#[test]
fn apply_patch_keeps_author_chronology_and_identity() {
    let p = git::apply_patch("/work/repo");
    assert_eq!(p.program, "git");
    assert_eq!(
        p.args,
        vec!["am", "ci-data.patch", "--committer-date-is-author-date"]
    );
    assert_eq!(p.current_dir.as_deref(), Some("/work/repo"));
    assert_eq!(
        p.env,
        vec![
            (
                "GIT_COMMITTER_EMAIL".to_string(),
                "ci@denbeigh.cloud".to_string()
            ),
            ("GIT_COMMITTER_NAME".to_string(), "CI Bot".to_string()),
        ]
    );
}

#[test]
fn fetch_patch_downloads_the_fixed_artifact() {
    let p = git::fetch_patch();
    assert_eq!(p.program, "buildkite-agent");
    assert_eq!(p.args, vec!["artifact", "download", "ci-data.patch", "."]);
    assert!(p.current_dir.is_none());
}

#[test]
fn patch_filename_is_fixed() {
    assert_eq!(git::patch_filename(), "ci-data.patch");
}

#[test]
fn agent_upload_names_every_path() {
    let p = Cli.upload(vec!["ci-data.patch".to_string()]);
    assert_eq!(p.program, "buildkite-agent");
    assert_eq!(p.args, vec!["artifact", "upload", "ci-data.patch"]);
    assert!(p.stdin.is_none());
}

#[test]
fn agent_download_names_query_and_destination() {
    let p = Cli.download("ci-data.patch", ".");
    assert_eq!(p.args, vec!["artifact", "download", "ci-data.patch", "."]);
}

#[test]
fn pipeline_upload_hands_bytes_on_stdin() {
    let p = Cli.pipeline_upload_bytes(b"{\"steps\":[]}".to_vec());
    assert_eq!(p.program, "buildkite-agent");
    assert_eq!(p.args, vec!["pipeline", "upload"]);
    assert_eq!(p.stdin, Some(b"{\"steps\":[]}".to_vec()));
}

#[test]
fn into_parts_splits_the_command_line() {
    let args = CliArgs {
        commit: "deadbeef".to_string(),
        repository: "repo".to_string(),
        path: "/work".to_string(),
        pipeline_id: "p1".to_string(),
        pipeline_slug: "proj".to_string(),
        branch: Some("main".to_string()),
        tag: None,
        ci_cmd: "ci".to_string(),
        log_level: LogLevel::Info,
        action: Action::Execute {
            target: "demo".to_string(),
        },
    };
    let (cmd, level, action, bk) = args.into_parts();
    assert_eq!(cmd, "ci");
    assert_eq!(level, LogLevel::Info);
    assert!(matches!(action, Action::Execute { target } if target == "demo"));
    assert_eq!(bk.commit, "deadbeef");
    assert_eq!(bk.branch.as_deref(), Some("main"));
    assert_eq!(bk.tag, None);
    assert_eq!(bk.repository, "repo");
    assert_eq!(bk.path, "/work");
    assert_eq!(bk.pipeline_id, "p1");
    assert_eq!(bk.pipeline_slug, "proj");
}

#[test]
fn labels_carry_the_kind_badge_and_name() {
    let cases = [
        (BuildTargetType::Package, ":hammer_and_wrench: :package: x"),
        (BuildTargetType::DevShell, ":hammer_and_wrench: :terminal: x"),
        (
            BuildTargetType::NixOSConfiguration,
            ":hammer_and_wrench: :nix: x",
        ),
        (
            BuildTargetType::NixDarwinConfiguration,
            ":hammer_and_wrench: :mac: x",
        ),
        (
            BuildTargetType::HomeManagerConfiguration,
            ":hammer_and_wrench: :house_with_garden: x",
        ),
    ];
    for (kind, expected) in cases {
        let t = FoundDerivationBuild {
            name: "x".to_string(),
            build_type: kind,
            path: "/p".to_string(),
            tag: "t".to_string(),
        };
        assert_eq!(t.label(), expected);
    }
}
