//! Command steps: one scheduled shell command with its key, label,
//! dependencies, environment and timeout, built through a builder with
//! stated defaults, and serialized to the platform's step JSON.

use vstd::prelude::*;

use crate::env::{insert_pair_opt, kv_insert};
use crate::json::{
    bool_str, dec_str, json_quoted, opt_arr_field, opt_obj_field, opt_str_field, push_bool,
    push_opt_arr_field, push_opt_obj_field, push_opt_str_field, push_quoted, push_u16,
};
use crate::shell::{join_quoted, quote_join};

verus! {

/// Minutes a command step may run when no timeout was chosen.
pub const DEFAULT_TIMEOUT_MINUTES: u16 = 20;

/// The default timeout, in minutes.
pub fn default_timeout() -> (r: u16)
    ensures
        r == DEFAULT_TIMEOUT_MINUTES,
{
    DEFAULT_TIMEOUT_MINUTES
}

/// One scheduled shell command.
pub struct CommandStep {
    pub allow_dependency_failure: bool,
    pub command: String,
    pub concurrency_group: Option<String>,
    pub depends_on: Option<Vec<String>>,
    pub env: Option<Vec<(String, String)>>,
    pub key: String,
    pub label: Option<String>,
    pub timeout_in_minutes: u16,
}

/// Mathematical image of [`CommandStep`].
pub struct CommandStepV {
    pub allow_dependency_failure: bool,
    pub command: Seq<char>,
    pub concurrency_group: Option<Seq<char>>,
    pub depends_on: Option<Seq<Seq<char>>>,
    pub env: Option<Seq<(Seq<char>, Seq<char>)>>,
    pub key: Seq<char>,
    pub label: Option<Seq<char>>,
    pub timeout_in_minutes: u16,
}

impl View for CommandStep {
    type V = CommandStepV;

    open spec fn view(&self) -> CommandStepV {
        CommandStepV {
            allow_dependency_failure: self.allow_dependency_failure,
            command: self.command@,
            concurrency_group: self.concurrency_group.deep_view(),
            depends_on: self.depends_on.deep_view(),
            env: self.env.deep_view(),
            key: self.key@,
            label: self.label.deep_view(),
            timeout_in_minutes: self.timeout_in_minutes,
        }
    }
}

/// The step JSON of a command step: the `type` tag first, then the fields in
/// sorted order, optional fields omitted when absent.
pub open spec fn encode_command_step(v: CommandStepV) -> Seq<char> {
    "{\"type\":\"command\",\"allow_dependency_failure\":"@ + bool_str(v.allow_dependency_failure)
        + ",\"command\":"@ + json_quoted(v.command) + opt_str_field(
        ",\"concurrency_group\":"@,
        v.concurrency_group,
    ) + opt_arr_field(",\"depends_on\":"@, v.depends_on) + opt_obj_field(",\"env\":"@, v.env)
        + ",\"key\":"@ + json_quoted(v.key) + opt_str_field(",\"label\":"@, v.label)
        + ",\"timeout_in_minutes\":"@ + dec_str(v.timeout_in_minutes as nat) + "}"@
}

impl CommandStep {
    /// A fresh builder with the documented defaults.
    pub fn builder() -> (r: CommandStepBuilder)
        ensures
            r.allow_dependency_failure == false,
            r.concurrency_group is None,
            r.depends_on is None,
            r.env is None,
            r.label is None,
            r.timeout_in_minutes is None,
    {
        CommandStepBuilder::default()
    }

    /// Appends this step's JSON to `out`.
    #[verifier::rlimit(100)]
    pub fn encode_json_onto(&self, out: &mut String)
        ensures
            final(out)@ == old(out)@ + encode_command_step(self@),
    {
        out.append("{\"type\":\"command\",\"allow_dependency_failure\":");
        push_bool(out, self.allow_dependency_failure);
        out.append(",\"command\":");
        push_quoted(out, self.command.as_str());
        push_opt_str_field(out, ",\"concurrency_group\":", &self.concurrency_group);
        push_opt_arr_field(out, ",\"depends_on\":", &self.depends_on);
        push_opt_obj_field(out, ",\"env\":", &self.env);
        out.append(",\"key\":");
        push_quoted(out, self.key.as_str());
        push_opt_str_field(out, ",\"label\":", &self.label);
        out.append(",\"timeout_in_minutes\":");
        push_u16(out, self.timeout_in_minutes);
        out.append("}");
        proof {
            assert(out@ =~= old(out)@ + encode_command_step(self@));
        }
    }
}

impl Clone for CommandStep {
    /// A copy with the same fields.
    fn clone(&self) -> (r: Self)
        ensures
            r@ == self@,
    {
        CommandStep {
            allow_dependency_failure: self.allow_dependency_failure,
            command: self.command.clone(),
            concurrency_group: crate::env::clone_opt_string(&self.concurrency_group),
            depends_on: crate::env::clone_opt_string_vec(&self.depends_on),
            env: crate::env::clone_opt_kv_vec(&self.env),
            key: self.key.clone(),
            label: crate::env::clone_opt_string(&self.label),
            timeout_in_minutes: self.timeout_in_minutes,
        }
    }
}

/// A single shell-quoted command line: each argument quoted on its own and
/// the results joined with single spaces, so that tokenizing the string
/// recovers exactly the arguments.
pub fn format_command(cmd: Vec<String>) -> (r: String)
    ensures
        r@ == join_quoted(cmd.deep_view()),
{
    quote_join(&cmd)
}

/// Collects the choices for a command step; `build` fills in the defaults.
pub struct CommandStepBuilder {
    pub allow_dependency_failure: bool,
    pub concurrency_group: Option<String>,
    pub depends_on: Option<Vec<String>>,
    pub env: Option<Vec<(String, String)>>,
    pub label: Option<String>,
    pub timeout_in_minutes: Option<u16>,
}

impl Default for CommandStepBuilder {
    /// No tolerance for failed dependencies, nothing optional chosen.
    fn default() -> (r: Self)
        ensures
            r.allow_dependency_failure == false,
            r.concurrency_group is None,
            r.depends_on is None,
            r.env is None,
            r.label is None,
            r.timeout_in_minutes is None,
    {
        CommandStepBuilder {
            allow_dependency_failure: false,
            concurrency_group: None,
            depends_on: None,
            env: None,
            label: None,
            timeout_in_minutes: None,
        }
    }
}

impl CommandStepBuilder {
    /// Lets the step run although a dependency failed.
    pub fn set_allow_dependency_failure(&mut self, val: bool) -> (r: &mut Self)
        ensures
            *r == (CommandStepBuilder { allow_dependency_failure: val, ..*old(self) }),
            *final(self) == *final(r),
    {
        self.allow_dependency_failure = val;
        self
    }

    /// Puts the step in a named concurrency group.
    pub fn set_concurrency_group(&mut self, val: String) -> (r: &mut Self)
        ensures
            *r == (CommandStepBuilder { concurrency_group: Some(val), ..*old(self) }),
            *final(self) == *final(r),
    {
        self.concurrency_group = Some(val);
        self
    }

    /// Replaces the step's dependency list.
    pub fn set_depends_on(&mut self, val: Vec<String>) -> (r: &mut Self)
        ensures
            *r == (CommandStepBuilder { depends_on: Some(val), ..*old(self) }),
            *final(self) == *final(r),
    {
        self.depends_on = Some(val);
        self
    }

    /// Sets one environment variable, replacing an earlier value under the
    /// same name.
    pub fn set_env(&mut self, key: String, val: String) -> (r: &mut Self)
        ensures
            r.allow_dependency_failure == old(self).allow_dependency_failure,
            r.concurrency_group == old(self).concurrency_group,
            r.depends_on == old(self).depends_on,
            r.label == old(self).label,
            r.timeout_in_minutes == old(self).timeout_in_minutes,
            r.env matches Some(e) && e.deep_view() == insert_pair_opt(
                old(self).env.deep_view(),
                key@,
                val@,
            ),
            *final(self) == *final(r),
    {
        if self.env.is_none() {
            let mut fresh: Vec<(String, String)> = Vec::new();
            fresh.push((key, val));
            assert(fresh.deep_view() =~= insert_pair_opt(
                old(self).env.deep_view(),
                key@,
                val@,
            ));
            self.env = Some(fresh);
        } else {
            match &mut self.env {
                Some(ev) => {
                    kv_insert(ev, key, val);
                },
                None => {},
            }
        }
        self
    }

    /// Sets the step's label.
    pub fn set_label(&mut self, val: String) -> (r: &mut Self)
        ensures
            *r == (CommandStepBuilder { label: Some(val), ..*old(self) }),
            *final(self) == *final(r),
    {
        self.label = Some(val);
        self
    }

    /// Sets the step's timeout, in minutes.
    pub fn set_timeout_in_minutes(&mut self, val: u16) -> (r: &mut Self)
        ensures
            *r == (CommandStepBuilder { timeout_in_minutes: Some(val), ..*old(self) }),
            *final(self) == *final(r),
    {
        self.timeout_in_minutes = Some(val);
        self
    }

    /// The finished step: the chosen options, the key, and the arguments as
    /// one shell-quoted command line; an unchosen timeout becomes the
    /// default.
    pub fn build(self, key: String, command: Vec<String>) -> (r: CommandStep)
        ensures
            r@.allow_dependency_failure == self.allow_dependency_failure,
            r@.command == join_quoted(command.deep_view()),
            r@.concurrency_group == self.concurrency_group.deep_view(),
            r@.depends_on == self.depends_on.deep_view(),
            r@.env == self.env.deep_view(),
            r@.key == key@,
            r@.label == self.label.deep_view(),
            r@.timeout_in_minutes == match self.timeout_in_minutes {
                Some(t) => t,
                None => DEFAULT_TIMEOUT_MINUTES,
            },
    {
        let timeout = match self.timeout_in_minutes {
            Some(t) => t,
            None => DEFAULT_TIMEOUT_MINUTES,
        };
        CommandStep {
            key,
            command: format_command(command),
            allow_dependency_failure: self.allow_dependency_failure,
            concurrency_group: self.concurrency_group,
            depends_on: self.depends_on,
            env: self.env,
            label: self.label,
            timeout_in_minutes: timeout,
        }
    }
}

} // verus!
