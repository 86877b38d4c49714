//! Trigger steps: scheduling a build of another pipeline, with the
//! triggered build's ref, environment and metadata chosen through a builder.

use vstd::prelude::*;

use crate::env::{insert_pair_opt, kv_insert};
use crate::json::{
    bool_str, json_quoted, opt_arr_field, opt_obj_field, opt_str_field, push_bool,
    push_opt_arr_field, push_opt_obj_field, push_opt_str_field, push_quoted,
};

verus! {

/// A step that triggers a build of another pipeline.
pub struct TriggerStep {
    /// Whether the triggering step completes without waiting for the
    /// triggered build.
    pub is_async: bool,
    pub build: TriggerBuildSpec,
}

/// What the triggered build runs with.
pub struct TriggerBuildSpec {
    pub key: String,
    pub branch: Option<String>,
    pub commit: Option<String>,
    pub env: Option<Vec<(String, String)>>,
    pub label: Option<String>,
    pub message: Option<String>,
    pub meta_data: Option<Vec<(String, String)>>,
    pub depends_on: Option<Vec<String>>,
}

/// Mathematical image of [`TriggerBuildSpec`].
pub struct TriggerBuildSpecV {
    pub key: Seq<char>,
    pub branch: Option<Seq<char>>,
    pub commit: Option<Seq<char>>,
    pub env: Option<Seq<(Seq<char>, Seq<char>)>>,
    pub label: Option<Seq<char>>,
    pub message: Option<Seq<char>>,
    pub meta_data: Option<Seq<(Seq<char>, Seq<char>)>>,
    pub depends_on: Option<Seq<Seq<char>>>,
}

/// Mathematical image of [`TriggerStep`].
pub struct TriggerStepV {
    pub is_async: bool,
    pub build: TriggerBuildSpecV,
}

impl View for TriggerBuildSpec {
    type V = TriggerBuildSpecV;

    open spec fn view(&self) -> TriggerBuildSpecV {
        TriggerBuildSpecV {
            key: self.key@,
            branch: self.branch.deep_view(),
            commit: self.commit.deep_view(),
            env: self.env.deep_view(),
            label: self.label.deep_view(),
            message: self.message.deep_view(),
            meta_data: self.meta_data.deep_view(),
            depends_on: self.depends_on.deep_view(),
        }
    }
}

impl View for TriggerStep {
    type V = TriggerStepV;

    open spec fn view(&self) -> TriggerStepV {
        TriggerStepV { is_async: self.is_async, build: self.build@ }
    }
}

/// The JSON of the triggered build: its key first, then the optional fields
/// in declaration order, omitted when absent.
pub open spec fn encode_trigger_build(v: TriggerBuildSpecV) -> Seq<char> {
    "{\"key\":"@ + json_quoted(v.key) + opt_str_field(",\"branch\":"@, v.branch) + opt_str_field(
        ",\"commit\":"@,
        v.commit,
    ) + opt_obj_field(",\"env\":"@, v.env) + opt_str_field(",\"label\":"@, v.label)
        + opt_str_field(",\"message\":"@, v.message) + opt_obj_field(
        ",\"meta_data\":"@,
        v.meta_data,
    ) + opt_arr_field(",\"depends_on\":"@, v.depends_on) + "}"@
}

/// The step JSON of a trigger step.
pub open spec fn encode_trigger_step(v: TriggerStepV) -> Seq<char> {
    "{\"type\":\"trigger\",\"async\":"@ + bool_str(v.is_async) + ",\"build\":"@
        + encode_trigger_build(v.build) + "}"@
}

impl TriggerBuildSpec {
    /// A fresh builder with nothing chosen.
    pub fn builder() -> (r: TriggerBuildSpecBuilder)
        ensures
            r.branch is None,
            r.commit is None,
            r.env is None,
            r.label is None,
            r.message is None,
            r.meta_data is None,
            r.depends_on is None,
    {
        TriggerBuildSpecBuilder::default()
    }

    /// Appends the triggered build's JSON to `out`.
    #[verifier::rlimit(100)]
    pub fn encode_json_onto(&self, out: &mut String)
        ensures
            final(out)@ == old(out)@ + encode_trigger_build(self@),
    {
        out.append("{\"key\":");
        push_quoted(out, self.key.as_str());
        push_opt_str_field(out, ",\"branch\":", &self.branch);
        push_opt_str_field(out, ",\"commit\":", &self.commit);
        push_opt_obj_field(out, ",\"env\":", &self.env);
        push_opt_str_field(out, ",\"label\":", &self.label);
        push_opt_str_field(out, ",\"message\":", &self.message);
        push_opt_obj_field(out, ",\"meta_data\":", &self.meta_data);
        push_opt_arr_field(out, ",\"depends_on\":", &self.depends_on);
        out.append("}");
        proof {
            assert(out@ =~= old(out)@ + encode_trigger_build(self@));
        }
    }
}

impl TriggerStep {
    /// Appends this step's JSON to `out`.
    pub fn encode_json_onto(&self, out: &mut String)
        ensures
            final(out)@ == old(out)@ + encode_trigger_step(self@),
    {
        out.append("{\"type\":\"trigger\",\"async\":");
        push_bool(out, self.is_async);
        out.append(",\"build\":");
        self.build.encode_json_onto(out);
        out.append("}");
        proof {
            assert(out@ =~= old(out)@ + encode_trigger_step(self@));
        }
    }
}

impl Clone for TriggerBuildSpec {
    /// A copy with the same fields.
    fn clone(&self) -> (r: Self)
        ensures
            r@ == self@,
    {
        TriggerBuildSpec {
            key: self.key.clone(),
            branch: crate::env::clone_opt_string(&self.branch),
            commit: crate::env::clone_opt_string(&self.commit),
            env: crate::env::clone_opt_kv_vec(&self.env),
            label: crate::env::clone_opt_string(&self.label),
            message: crate::env::clone_opt_string(&self.message),
            meta_data: crate::env::clone_opt_kv_vec(&self.meta_data),
            depends_on: crate::env::clone_opt_string_vec(&self.depends_on),
        }
    }
}

impl Clone for TriggerStep {
    /// A copy with the same fields.
    fn clone(&self) -> (r: Self)
        ensures
            r@ == self@,
    {
        TriggerStep { is_async: self.is_async, build: self.build.clone() }
    }
}

/// Collects the choices for a triggered build; `build` adds the key.
pub struct TriggerBuildSpecBuilder {
    pub branch: Option<String>,
    pub commit: Option<String>,
    pub env: Option<Vec<(String, String)>>,
    pub label: Option<String>,
    pub message: Option<String>,
    pub meta_data: Option<Vec<(String, String)>>,
    pub depends_on: Option<Vec<String>>,
}

impl Default for TriggerBuildSpecBuilder {
    /// Nothing chosen.
    fn default() -> (r: Self)
        ensures
            r.branch is None,
            r.commit is None,
            r.env is None,
            r.label is None,
            r.message is None,
            r.meta_data is None,
            r.depends_on is None,
    {
        TriggerBuildSpecBuilder {
            branch: None,
            commit: None,
            env: None,
            label: None,
            message: None,
            meta_data: None,
            depends_on: None,
        }
    }
}

impl TriggerBuildSpecBuilder {
    /// Sets the branch the triggered build runs on.
    pub fn set_branch(&mut self, branch: String) -> (r: &mut Self)
        ensures
            *r == (TriggerBuildSpecBuilder { branch: Some(branch), ..*old(self) }),
            *final(self) == *final(r),
    {
        self.branch = Some(branch);
        self
    }

    /// Sets the commit the triggered build runs at.
    pub fn set_commit(&mut self, commit: String) -> (r: &mut Self)
        ensures
            *r == (TriggerBuildSpecBuilder { commit: Some(commit), ..*old(self) }),
            *final(self) == *final(r),
    {
        self.commit = Some(commit);
        self
    }

    /// Sets one environment variable of the triggered build, replacing an
    /// earlier value under the same name.
    pub fn set_env(&mut self, key: String, val: String) -> (r: &mut Self)
        ensures
            r.branch == old(self).branch,
            r.commit == old(self).commit,
            r.label == old(self).label,
            r.message == old(self).message,
            r.meta_data == old(self).meta_data,
            r.depends_on == old(self).depends_on,
            r.env matches Some(e) && e.deep_view() == insert_pair_opt(
                old(self).env.deep_view(),
                key@,
                val@,
            ),
            *final(self) == *final(r),
    {
        if self.env.is_none() {
            let mut fresh: Vec<(String, String)> = Vec::new();
            fresh.push((key, val));
            assert(fresh.deep_view() =~= insert_pair_opt(old(self).env.deep_view(), key@, val@));
            self.env = Some(fresh);
        } else {
            match &mut self.env {
                Some(ev) => {
                    kv_insert(ev, key, val);
                },
                None => {},
            }
        }
        self
    }

    /// Sets the triggered build's label.
    pub fn set_label(&mut self, label: String) -> (r: &mut Self)
        ensures
            *r == (TriggerBuildSpecBuilder { label: Some(label), ..*old(self) }),
            *final(self) == *final(r),
    {
        self.label = Some(label);
        self
    }

    /// Sets the triggered build's message.
    pub fn set_message(&mut self, message: String) -> (r: &mut Self)
        ensures
            *r == (TriggerBuildSpecBuilder { message: Some(message), ..*old(self) }),
            *final(self) == *final(r),
    {
        self.message = Some(message);
        self
    }

    /// Sets one metadata entry of the triggered build, replacing an earlier
    /// value under the same name.
    pub fn set_meta_data(&mut self, key: String, val: String) -> (r: &mut Self)
        ensures
            r.branch == old(self).branch,
            r.commit == old(self).commit,
            r.env == old(self).env,
            r.label == old(self).label,
            r.message == old(self).message,
            r.depends_on == old(self).depends_on,
            r.meta_data matches Some(m) && m.deep_view() == insert_pair_opt(
                old(self).meta_data.deep_view(),
                key@,
                val@,
            ),
            *final(self) == *final(r),
    {
        if self.meta_data.is_none() {
            let mut fresh: Vec<(String, String)> = Vec::new();
            fresh.push((key, val));
            assert(fresh.deep_view() =~= insert_pair_opt(
                old(self).meta_data.deep_view(),
                key@,
                val@,
            ));
            self.meta_data = Some(fresh);
        } else {
            match &mut self.meta_data {
                Some(md) => {
                    kv_insert(md, key, val);
                },
                None => {},
            }
        }
        self
    }

    /// Appends one dependency key.
    pub fn add_depends_on(&mut self, item: String) -> (r: &mut Self)
        ensures
            r.branch == old(self).branch,
            r.commit == old(self).commit,
            r.env == old(self).env,
            r.label == old(self).label,
            r.message == old(self).message,
            r.meta_data == old(self).meta_data,
            r.depends_on matches Some(d) && d.deep_view() == match old(self).depends_on {
                Some(dd) => dd.deep_view().push(item@),
                None => seq![item@],
            },
            *final(self) == *final(r),
    {
        if self.depends_on.is_none() {
            let mut fresh: Vec<String> = Vec::new();
            fresh.push(item);
            assert(fresh.deep_view() =~= seq![item@]);
            self.depends_on = Some(fresh);
        } else {
            match &mut self.depends_on {
                Some(d) => {
                    let ghost dv = d.deep_view();
                    d.push(item);
                    assert(d.deep_view() =~= dv.push(item@));
                },
                None => {},
            }
        }
        self
    }

    /// The finished trigger spec for the pipeline named by `key`.
    pub fn build(self, key: String) -> (r: TriggerBuildSpec)
        ensures
            r.key == key,
            r.branch == self.branch,
            r.commit == self.commit,
            r.env == self.env,
            r.label == self.label,
            r.message == self.message,
            r.meta_data == self.meta_data,
            r.depends_on == self.depends_on,
    {
        TriggerBuildSpec {
            key,
            branch: self.branch,
            commit: self.commit,
            env: self.env,
            label: self.label,
            message: self.message,
            meta_data: self.meta_data,
            depends_on: self.depends_on,
        }
    }
}

} // verus!
