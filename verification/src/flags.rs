//! Invocation inputs as plain data: what the command line and environment
//! supply, already parsed.  The binary around the library does the actual
//! argument parsing and hands over values of these types.

use vstd::prelude::*;

verus! {

/// Logging verbosity, mirrored by the binary onto its logger.
#[derive(Clone, Copy, PartialEq, Eq, Structural, Debug)]
pub enum LogLevel {
    Off,
    Error,
    Warn,
    Info,
    Debug,
    Trace,
}

/// The subcommand requested for this invocation.
#[derive(Debug)]
pub enum Action {
    /// Collect all results at the end of a run.
    Collect,
    /// Evaluate the targets to be built for this commit.
    Evaluate,
    /// Execute a build target.
    Execute { target: String },
    /// Build a derivation.
    Build { target: String },
}

/// Per-run identity: commit, refs, repository, checkout path and pipeline
/// identity.  Built once per invocation and never mutated.
#[derive(Clone)]
pub struct BuildkiteArgs {
    pub commit: String,
    pub branch: Option<String>,
    pub tag: Option<String>,
    pub repository: String,
    pub path: String,
    pub pipeline_id: String,
    pub pipeline_slug: String,
}

/// Everything the command line supplies.
pub struct CliArgs {
    pub commit: String,
    pub repository: String,
    pub path: String,
    pub pipeline_id: String,
    pub pipeline_slug: String,
    pub branch: Option<String>,
    pub tag: Option<String>,
    pub ci_cmd: String,
    pub log_level: LogLevel,
    pub action: Action,
}

impl CliArgs {
    /// Splits the parsed command line into the self-invocation command, the
    /// log level, the requested action, and the per-run identity.
    pub fn into_parts(self) -> (r: (String, LogLevel, Action, BuildkiteArgs))
        ensures
            r.0 == self.ci_cmd,
            r.1 == self.log_level,
            r.2 == self.action,
            r.3.commit == self.commit,
            r.3.branch == self.branch,
            r.3.tag == self.tag,
            r.3.repository == self.repository,
            r.3.path == self.path,
            r.3.pipeline_id == self.pipeline_id,
            r.3.pipeline_slug == self.pipeline_slug,
    {
        (
            self.ci_cmd,
            self.log_level,
            self.action,
            BuildkiteArgs {
                commit: self.commit,
                branch: self.branch,
                tag: self.tag,
                repository: self.repository,
                path: self.path,
                pipeline_id: self.pipeline_id,
                pipeline_slug: self.pipeline_slug,
            },
        )
    }
}

} // verus!
