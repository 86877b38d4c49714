//! Core of a continuous-integration driver for a build graph evaluated by an
//! external tool and executed as independent jobs on a CI platform.
//!
//! The library owns the logic worth stating precisely: the step model and its
//! wire encoding, the canonical run-state snapshot, the command plans for the
//! version-control and CI-agent invocations, and the pipeline synthesis
//! algorithm.  Process spawning, file I/O and argument parsing live in the
//! surrounding binary, which executes the plans this library produces.

pub mod build_info;
pub mod buildkite;
pub mod cli;
pub mod command;
pub mod env;
pub mod flags;
pub mod git;
pub mod json;
pub mod plan;
pub mod shell;
pub mod synthesis;
pub mod text;
pub mod trigger;

use vstd::prelude::*;

verus! {

/// Exit code reported for a finished subprocess: the code itself when the
/// process exited with one, and the worst-case failure code when it was
/// terminated without one (for example by a signal), since "no code" must
/// never pass for success.
pub fn exit_code_or_failure(code: Option<i32>) -> (r: i32)
    ensures
        code matches Some(c) ==> r == c,
        code is None ==> r == 1i32,
{
    match code {
        Some(c) => c,
        None => 1,
    }
}

} // verus!
