//! Version-control command plans: the exact invocations for committing the
//! snapshot, turning it into a patch, and replaying that patch onto a fresh
//! checkout.  Each function states the full invocation; the binary around
//! the library runs the plans in order and reports their outcomes through
//! the error types here.

use vstd::prelude::*;

use crate::plan::CommandPlan;

verus! {

/// The fixed filename the single-commit patch travels under.
pub fn patch_filename() -> (r: String)
    ensures
        r@ == "ci-data.patch"@,
{
    String::from_str("ci-data.patch")
}

/// The committer name propagation commits carry: a dedicated service
/// identity, so these commits are recognizable and excluded from review.
pub fn git_committer_name() -> (r: String)
    ensures
        r@ == "CI Bot"@,
{
    String::from_str("CI Bot")
}

/// The committer address propagation commits carry.
pub fn git_committer_email() -> (r: String)
    ensures
        r@ == "ci@denbeigh.cloud"@,
{
    String::from_str("ci@denbeigh.cloud")
}

/// Why turning the commit into a patch and publishing it failed.
#[derive(Debug)]
pub enum UploadingPatchError {
    RunningBKAgent(String),
    InvokingGit(String),
    GitStatus(Option<i32>, String),
}

/// Why committing the snapshot failed.
#[derive(Debug)]
pub enum CreateCommitError {
    InvokingGitAdd(String),
    GitAddStatus(Option<i32>, String),
    InvokingGitCommit(String),
    GitCommitStatus(Option<i32>, String),
}

/// Why fetching the published patch failed.
#[derive(Debug)]
pub enum FetchPatchError {
    RunningBKAgent(String),
}

/// Why replaying the patch failed.
#[derive(Debug)]
pub enum ApplyPatchError {
    SpawningGit(String),
    GitError { code: Option<i32>, stderr: String },
}

/// The invocation that renders the most recent commit as one patch on
/// standard output, in the checkout at `repo`.
pub fn format_patch(repo: &str) -> (r: CommandPlan)
    ensures
        r.program@ == "git"@,
        r.args.deep_view() == seq!["format-patch"@, "-n1"@, "--stdout"@],
        r.env.deep_view() == Seq::<(Seq<char>, Seq<char>)>::empty(),
        r.current_dir matches Some(d) && d@ == repo@,
        r.stdin is None,
{
    let mut args: Vec<String> = Vec::new();
    args.push(String::from_str("format-patch"));
    args.push(String::from_str("-n1"));
    args.push(String::from_str("--stdout"));
    assert(args.deep_view() =~= seq!["format-patch"@, "-n1"@, "--stdout"@]);
    let r = CommandPlan {
        program: String::from_str("git"),
        args,
        env: Vec::new(),
        current_dir: Some(repo.to_owned()),
        stdin: None,
    };
    assert(r.env.deep_view() =~= Seq::<(Seq<char>, Seq<char>)>::empty());
    r
}

/// The invocation that stages the snapshot file in the checkout at `repo`.
pub fn add_file(repo: &str, state_file: &str) -> (r: CommandPlan)
    ensures
        r.program@ == "git"@,
        r.args.deep_view() == seq!["add"@, state_file@],
        r.env.deep_view() == Seq::<(Seq<char>, Seq<char>)>::empty(),
        r.current_dir matches Some(d) && d@ == repo@,
        r.stdin is None,
{
    let mut args: Vec<String> = Vec::new();
    args.push(String::from_str("add"));
    args.push(state_file.to_owned());
    assert(args.deep_view() =~= seq!["add"@, state_file@]);
    let r = CommandPlan {
        program: String::from_str("git"),
        args,
        env: Vec::new(),
        current_dir: Some(repo.to_owned()),
        stdin: None,
    };
    assert(r.env.deep_view() =~= Seq::<(Seq<char>, Seq<char>)>::empty());
    r
}

/// The invocation that commits the staged snapshot under the fixed service
/// identity and a fixed message.
pub fn create_commit(repo: &str) -> (r: CommandPlan)
    ensures
        r.program@ == "git"@,
        r.args.deep_view() == seq!["commit"@, "--message"@, "automated CI state commit"@],
        r.env.deep_view() == seq![
            ("GIT_COMMITTER_EMAIL"@, "ci@denbeigh.cloud"@),
            ("GIT_COMMITTER_NAME"@, "CI Bot"@),
        ],
        r.current_dir matches Some(d) && d@ == repo@,
        r.stdin is None,
{
    let mut args: Vec<String> = Vec::new();
    args.push(String::from_str("commit"));
    args.push(String::from_str("--message"));
    args.push(String::from_str("automated CI state commit"));
    assert(args.deep_view() =~= seq!["commit"@, "--message"@, "automated CI state commit"@]);
    let mut env: Vec<(String, String)> = Vec::new();
    env.push((String::from_str("GIT_COMMITTER_EMAIL"), git_committer_email()));
    env.push((String::from_str("GIT_COMMITTER_NAME"), git_committer_name()));
    assert(env.deep_view() =~= seq![
        ("GIT_COMMITTER_EMAIL"@, "ci@denbeigh.cloud"@),
        ("GIT_COMMITTER_NAME"@, "CI Bot"@),
    ]);
    CommandPlan {
        program: String::from_str("git"),
        args,
        env,
        current_dir: Some(repo.to_owned()),
        stdin: None,
    }
}

/// The two invocations that record the snapshot: stage the file, then
/// commit it, in that order.
pub fn create_state_commit(repo: &str, state_file: &str) -> (r: Vec<CommandPlan>)
    ensures
        r@.len() == 2,
        r@[0].program@ == "git"@ && r@[0].args.deep_view() == seq!["add"@, state_file@],
        r@[1].program@ == "git"@ && r@[1].args.deep_view() == seq![
            "commit"@,
            "--message"@,
            "automated CI state commit"@,
        ],
        r@[0].current_dir matches Some(d0) && d0@ == repo@,
        r@[1].current_dir matches Some(d1) && d1@ == repo@,
        r@[1].env.deep_view() == seq![
            ("GIT_COMMITTER_EMAIL"@, "ci@denbeigh.cloud"@),
            ("GIT_COMMITTER_NAME"@, "CI Bot"@),
        ],
{
    let mut r: Vec<CommandPlan> = Vec::new();
    r.push(add_file(repo, state_file));
    r.push(create_commit(repo));
    r
}

/// The invocation that downloads the published patch into the current
/// checkout.
pub fn fetch_patch() -> (r: CommandPlan)
    ensures
        r.is_bare("buildkite-agent"@, seq!["artifact"@, "download"@, "ci-data.patch"@, "."@]),
{
    crate::cli::Cli.download("ci-data.patch", ".")
}

/// The invocation that replays the fetched patch as a commit, keeping the
/// author's timestamp as the committer timestamp and the fixed service
/// identity as the committer, so propagation does not perturb chronology.
pub fn apply_patch(repo: &str) -> (r: CommandPlan)
    ensures
        r.program@ == "git"@,
        r.args.deep_view() == seq!["am"@, "ci-data.patch"@, "--committer-date-is-author-date"@],
        r.env.deep_view() == seq![
            ("GIT_COMMITTER_EMAIL"@, "ci@denbeigh.cloud"@),
            ("GIT_COMMITTER_NAME"@, "CI Bot"@),
        ],
        r.current_dir matches Some(d) && d@ == repo@,
        r.stdin is None,
{
    let mut args: Vec<String> = Vec::new();
    args.push(String::from_str("am"));
    args.push(patch_filename());
    args.push(String::from_str("--committer-date-is-author-date"));
    assert(args.deep_view() =~= seq![
        "am"@,
        "ci-data.patch"@,
        "--committer-date-is-author-date"@,
    ]);
    let mut env: Vec<(String, String)> = Vec::new();
    env.push((String::from_str("GIT_COMMITTER_EMAIL"), git_committer_email()));
    env.push((String::from_str("GIT_COMMITTER_NAME"), git_committer_name()));
    assert(env.deep_view() =~= seq![
        ("GIT_COMMITTER_EMAIL"@, "ci@denbeigh.cloud"@),
        ("GIT_COMMITTER_NAME"@, "CI Bot"@),
    ]);
    CommandPlan {
        program: String::from_str("git"),
        args,
        env,
        current_dir: Some(repo.to_owned()),
        stdin: None,
    }
}

} // verus!
