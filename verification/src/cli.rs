//! CI-agent command plans: the exact invocations for moving artifacts and
//! uploading the pipeline document through the platform's agent binary.
//! The binary around the library spawns them and reports failures through
//! [`RunError`].

use vstd::prelude::*;

use crate::plan::CommandPlan;

verus! {

/// How running the agent failed, each variant carrying the underlying error
/// rendered as text; a non-zero exit also carries its code and what the
/// agent wrote to standard error.
#[derive(Debug)]
pub enum RunError {
    Spawning(String),
    ExitedWithError(Option<i32>, String),
    WritingInput(String),
    Awaiting(String),
}

/// The agent binary's invocations.
#[derive(Default)]
pub struct Cli;

impl Cli {
    /// The invocation that uploads the named files as artifacts.
    pub fn upload(self, paths: Vec<String>) -> (r: CommandPlan)
        ensures
            r.is_bare(
                "buildkite-agent"@,
                seq!["artifact"@, "upload"@] + paths.deep_view(),
            ),
    {
        let mut args: Vec<String> = Vec::new();
        args.push(String::from_str("artifact"));
        args.push(String::from_str("upload"));
        assert(args.deep_view() =~= seq!["artifact"@, "upload"@]);
        let ghost base = args.deep_view();
        let mut rest = paths;
        let ghost pdv = rest.deep_view();
        args.append(&mut rest);
        proof {
            assert(args.deep_view() =~= base + pdv);
        }
        let r = CommandPlan {
            program: String::from_str("buildkite-agent"),
            args,
            env: Vec::new(),
            current_dir: None,
            stdin: None,
        };
        assert(r.env.deep_view() =~= Seq::<(Seq<char>, Seq<char>)>::empty());
        r
    }

    /// The invocation that downloads artifacts matching `query` to `dest`.
    pub fn download(self, query: &str, dest: &str) -> (r: CommandPlan)
        ensures
            r.is_bare("buildkite-agent"@, seq!["artifact"@, "download"@, query@, dest@]),
    {
        let mut args: Vec<String> = Vec::new();
        args.push(String::from_str("artifact"));
        args.push(String::from_str("download"));
        args.push(query.to_owned());
        args.push(dest.to_owned());
        assert(args.deep_view() =~= seq!["artifact"@, "download"@, query@, dest@]);
        let r = CommandPlan {
            program: String::from_str("buildkite-agent"),
            args,
            env: Vec::new(),
            current_dir: None,
            stdin: None,
        };
        assert(r.env.deep_view() =~= Seq::<(Seq<char>, Seq<char>)>::empty());
        r
    }

    /// The invocation that uploads a pipeline document, handing the bytes
    /// over on standard input.
    pub fn pipeline_upload_bytes(self, data: Vec<u8>) -> (r: CommandPlan)
        ensures
            r.program@ == "buildkite-agent"@,
            r.args.deep_view() == seq!["pipeline"@, "upload"@],
            r.env.deep_view() == Seq::<(Seq<char>, Seq<char>)>::empty(),
            r.current_dir is None,
            r.stdin matches Some(b) && b@ == data@,
    {
        let mut args: Vec<String> = Vec::new();
        args.push(String::from_str("pipeline"));
        args.push(String::from_str("upload"));
        assert(args.deep_view() =~= seq!["pipeline"@, "upload"@]);
        let r = CommandPlan {
            program: String::from_str("buildkite-agent"),
            args,
            env: Vec::new(),
            current_dir: None,
            stdin: Some(data),
        };
        assert(r.env.deep_view() =~= Seq::<(Seq<char>, Seq<char>)>::empty());
        r
    }
}

} // verus!
