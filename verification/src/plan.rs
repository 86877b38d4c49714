//! A command plan: the exact subprocess invocation some part of the run asks
//! for, as plain data.  The library states precisely which program, arguments,
//! environment and working directory each operation uses; the binary around
//! the library is the only place a plan is actually spawned.

use vstd::prelude::*;

verus! {

/// One subprocess invocation, fully determined: program name, arguments in
/// order, extra environment variables, optional working directory and
/// optional bytes for standard input.
pub struct CommandPlan {
    pub program: String,
    pub args: Vec<String>,
    pub env: Vec<(String, String)>,
    pub current_dir: Option<String>,
    pub stdin: Option<Vec<u8>>,
}

impl CommandPlan {
    /// True when the plan runs `program` with exactly `args`, no extra
    /// environment, no working-directory override and no standard input.
    pub open spec fn is_bare(self, program: Seq<char>, args: Seq<Seq<char>>) -> bool {
        &&& self.program@ == program
        &&& self.args.deep_view() == args
        &&& self.env.deep_view() == Seq::<(Seq<char>, Seq<char>)>::empty()
        &&& self.current_dir is None
        &&& self.stdin is None
    }
}

} // verus!
