//! The step model: the closed set of step kinds a pipeline may hold, with
//! their wire encoding.  A pipeline document is one JSON object whose `steps`
//! array carries each step tagged by its `type`.

use vstd::prelude::*;

use crate::command::{encode_command_step, CommandStep, CommandStepV};
use crate::json::{
    bool_str, json_quoted, opt_arr_field, opt_obj_field, opt_str_field, push_bool,
    push_opt_arr_field, push_opt_obj_field, push_opt_str_field, push_quoted,
};
use crate::text::push_char;
use crate::trigger::{encode_trigger_step, TriggerStep, TriggerStepV};

verus! {

/// One schedulable unit of the synthesized pipeline.
pub enum Step {
    Block(BlockStep),
    Command(CommandStep),
    Trigger(TriggerStep),
    Wait(WaitStep),
}

/// Mathematical image of [`Step`].
pub enum StepV {
    Block(BlockStepV),
    Command(CommandStepV),
    Trigger(TriggerStepV),
    Wait(WaitStepV),
}

impl View for Step {
    type V = StepV;

    open spec fn view(&self) -> StepV {
        match self {
            Step::Block(s) => StepV::Block(s@),
            Step::Command(s) => StepV::Command(s@),
            Step::Trigger(s) => StepV::Trigger(s@),
            Step::Wait(s) => StepV::Wait(s@),
        }
    }
}

impl DeepView for Step {
    type V = StepV;

    open spec fn deep_view(&self) -> StepV {
        self.view()
    }
}

/// The build state a block step waits to be released under.
#[derive(Clone, Copy, PartialEq, Eq, Structural, Debug)]
pub enum BlockState {
    Passed,
    Failed,
    Running,
}

/// The wire spelling of a block state.
pub open spec fn block_state_str(s: BlockState) -> Seq<char> {
    match s {
        BlockState::Passed => "passed"@,
        BlockState::Failed => "failed"@,
        BlockState::Running => "running"@,
    }
}

/// A manual gate: the pipeline pauses here until released.
pub struct BlockStep {
    /// Label of the block step.
    pub block: String,
    pub blocked_state: BlockState,
    pub depends_on: Option<Vec<String>>,
    pub label: Option<String>,
}

/// Mathematical image of [`BlockStep`].
pub struct BlockStepV {
    pub block: Seq<char>,
    pub blocked_state: BlockState,
    pub depends_on: Option<Seq<Seq<char>>>,
    pub label: Option<Seq<char>>,
}

impl View for BlockStep {
    type V = BlockStepV;

    open spec fn view(&self) -> BlockStepV {
        BlockStepV {
            block: self.block@,
            blocked_state: self.blocked_state,
            depends_on: self.depends_on.deep_view(),
            label: self.label.deep_view(),
        }
    }
}

/// The step JSON of a block step.
pub open spec fn encode_block_step(v: BlockStepV) -> Seq<char> {
    "{\"type\":\"block\",\"block\":"@ + json_quoted(v.block) + ",\"blocked_state\":"@
        + json_quoted(block_state_str(v.blocked_state)) + opt_arr_field(
        ",\"depends_on\":"@,
        v.depends_on,
    ) + opt_str_field(",\"label\":"@, v.label) + "}"@
}

impl BlockStep {
    /// Appends this step's JSON to `out`.
    pub fn encode_json_onto(&self, out: &mut String)
        ensures
            final(out)@ == old(out)@ + encode_block_step(self@),
    {
        out.append("{\"type\":\"block\",\"block\":");
        push_quoted(out, self.block.as_str());
        out.append(",\"blocked_state\":");
        match self.blocked_state {
            BlockState::Passed => push_quoted(out, "passed"),
            BlockState::Failed => push_quoted(out, "failed"),
            BlockState::Running => push_quoted(out, "running"),
        }
        push_opt_arr_field(out, ",\"depends_on\":", &self.depends_on);
        push_opt_str_field(out, ",\"label\":", &self.label);
        out.append("}");
        proof {
            assert(out@ =~= old(out)@ + encode_block_step(self@));
        }
    }
}

/// A barrier: later steps wait here for the earlier ones.
pub struct WaitStep {
    pub allow_dependency_failure: bool,
    pub continue_on_failure: bool,
    pub depends_on: Option<Vec<String>>,
    pub key: String,
}

/// Mathematical image of [`WaitStep`].
pub struct WaitStepV {
    pub allow_dependency_failure: bool,
    pub continue_on_failure: bool,
    pub depends_on: Option<Seq<Seq<char>>>,
    pub key: Seq<char>,
}

impl View for WaitStep {
    type V = WaitStepV;

    open spec fn view(&self) -> WaitStepV {
        WaitStepV {
            allow_dependency_failure: self.allow_dependency_failure,
            continue_on_failure: self.continue_on_failure,
            depends_on: self.depends_on.deep_view(),
            key: self.key@,
        }
    }
}

/// The step JSON of a wait step.
pub open spec fn encode_wait_step(v: WaitStepV) -> Seq<char> {
    "{\"type\":\"wait\",\"allow_dependency_failure\":"@ + bool_str(v.allow_dependency_failure)
        + ",\"continue_on_failure\":"@ + bool_str(v.continue_on_failure) + opt_arr_field(
        ",\"depends_on\":"@,
        v.depends_on,
    ) + ",\"key\":"@ + json_quoted(v.key) + "}"@
}

impl WaitStep {
    /// A fresh builder: no failure tolerance, no dependencies.
    pub fn builder() -> (r: WaitStepBuilder)
        ensures
            r.allow_dependency_failure == false,
            r.continue_on_failure == false,
            r.depends_on is None,
    {
        WaitStepBuilder::default()
    }

    /// Appends this step's JSON to `out`.
    pub fn encode_json_onto(&self, out: &mut String)
        ensures
            final(out)@ == old(out)@ + encode_wait_step(self@),
    {
        out.append("{\"type\":\"wait\",\"allow_dependency_failure\":");
        push_bool(out, self.allow_dependency_failure);
        out.append(",\"continue_on_failure\":");
        push_bool(out, self.continue_on_failure);
        push_opt_arr_field(out, ",\"depends_on\":", &self.depends_on);
        out.append(",\"key\":");
        push_quoted(out, self.key.as_str());
        out.append("}");
        proof {
            assert(out@ =~= old(out)@ + encode_wait_step(self@));
        }
    }
}

/// Collects the choices for a wait step; `build` adds the key.
pub struct WaitStepBuilder {
    pub allow_dependency_failure: bool,
    pub continue_on_failure: bool,
    pub depends_on: Option<Vec<String>>,
}

impl Default for WaitStepBuilder {
    /// No failure tolerance, no dependencies.
    fn default() -> (r: Self)
        ensures
            r.allow_dependency_failure == false,
            r.continue_on_failure == false,
            r.depends_on is None,
    {
        WaitStepBuilder { allow_dependency_failure: false, continue_on_failure: false, depends_on: None }
    }
}

impl WaitStepBuilder {
    /// Lets the barrier pass although a dependency failed.
    pub fn set_allow_dependency_failure(&mut self, val: bool) -> (r: &mut Self)
        ensures
            *r == (WaitStepBuilder { allow_dependency_failure: val, ..*old(self) }),
            *final(self) == *final(r),
    {
        self.allow_dependency_failure = val;
        self
    }

    /// Lets the pipeline continue past the barrier after a failure.
    pub fn set_continue_on_failure(&mut self, val: bool) -> (r: &mut Self)
        ensures
            *r == (WaitStepBuilder { continue_on_failure: val, ..*old(self) }),
            *final(self) == *final(r),
    {
        self.continue_on_failure = val;
        self
    }

    /// Replaces the barrier's dependency list.
    pub fn set_depends_on(&mut self, val: Vec<String>) -> (r: &mut Self)
        ensures
            *r == (WaitStepBuilder { depends_on: Some(val), ..*old(self) }),
            *final(self) == *final(r),
    {
        self.depends_on = Some(val);
        self
    }

    /// The finished barrier under the key `key`.
    pub fn build(self, key: String) -> (r: WaitStep)
        ensures
            r.key == key,
            r.allow_dependency_failure == self.allow_dependency_failure,
            r.continue_on_failure == self.continue_on_failure,
            r.depends_on == self.depends_on,
    {
        WaitStep {
            key,
            allow_dependency_failure: self.allow_dependency_failure,
            continue_on_failure: self.continue_on_failure,
            depends_on: self.depends_on,
        }
    }
}

impl Clone for BlockStep {
    /// A copy with the same fields.
    fn clone(&self) -> (r: Self)
        ensures
            r@ == self@,
    {
        BlockStep {
            block: self.block.clone(),
            blocked_state: self.blocked_state,
            depends_on: crate::env::clone_opt_string_vec(&self.depends_on),
            label: crate::env::clone_opt_string(&self.label),
        }
    }
}

impl Clone for WaitStep {
    /// A copy with the same fields.
    fn clone(&self) -> (r: Self)
        ensures
            r@ == self@,
    {
        WaitStep {
            allow_dependency_failure: self.allow_dependency_failure,
            continue_on_failure: self.continue_on_failure,
            depends_on: crate::env::clone_opt_string_vec(&self.depends_on),
            key: self.key.clone(),
        }
    }
}

impl Clone for Step {
    /// A copy with the same fields.
    fn clone(&self) -> (r: Self)
        ensures
            r@ == self@,
    {
        match self {
            Step::Block(b) => Step::Block(b.clone()),
            Step::Command(c) => Step::Command(c.clone()),
            Step::Trigger(t) => Step::Trigger(t.clone()),
            Step::Wait(w) => Step::Wait(w.clone()),
        }
    }
}

/// The step JSON of any step, tagged by its kind.
pub open spec fn encode_step(v: StepV) -> Seq<char> {
    match v {
        StepV::Block(b) => encode_block_step(b),
        StepV::Command(c) => encode_command_step(c),
        StepV::Trigger(t) => encode_trigger_step(t),
        StepV::Wait(w) => encode_wait_step(w),
    }
}

/// Appends the step JSON of `s` to `out`.
pub fn encode_step_onto(out: &mut String, s: &Step)
    ensures
        final(out)@ == old(out)@ + encode_step(s@),
{
    match s {
        Step::Block(b) => b.encode_json_onto(out),
        Step::Command(c) => c.encode_json_onto(out),
        Step::Trigger(t) => t.encode_json_onto(out),
        Step::Wait(w) => w.encode_json_onto(out),
    }
}

/// The elements of the steps array, comma-separated.
pub open spec fn encode_steps_items(xs: Seq<StepV>) -> Seq<char>
    decreases xs.len(),
{
    if xs.len() == 0 {
        Seq::empty()
    } else if xs.len() == 1 {
        encode_step(xs[0])
    } else {
        encode_step(xs[0]) + seq![','] + encode_steps_items(xs.drop_first())
    }
}

/// A JSON array holding each step's JSON in order.
pub open spec fn encode_steps_array(xs: Seq<StepV>) -> Seq<char> {
    seq!['['] + encode_steps_items(xs) + seq![']']
}

proof fn lemma_encode_steps_items_snoc(xs: Seq<StepV>, x: StepV)
    ensures
        xs.len() == 0 ==> encode_steps_items(xs.push(x)) == encode_step(x),
        xs.len() > 0 ==> encode_steps_items(xs.push(x)) == encode_steps_items(xs) + seq![',']
            + encode_step(x),
    decreases xs.len(),
{
    let p = xs.push(x);
    if xs.len() == 0 {
        assert(p.len() == 1);
        assert(p[0] == x);
    } else {
        assert(p[0] == xs[0]);
        assert(p.drop_first() =~= xs.drop_first().push(x));
        lemma_encode_steps_items_snoc(xs.drop_first(), x);
        if xs.len() == 1 {
        } else {
            assert(encode_step(xs[0]) + seq![','] + (encode_steps_items(xs.drop_first())
                + seq![','] + encode_step(x)) =~= (encode_step(xs[0]) + seq![',']
                + encode_steps_items(xs.drop_first())) + seq![','] + encode_step(x));
        }
    }
}

/// Appends the JSON array of all steps in `xs` to `out`.
pub fn encode_steps_onto(out: &mut String, xs: &Vec<Step>)
    ensures
        final(out)@ == old(out)@ + encode_steps_array(xs.deep_view()),
{
    push_char(out, '[');
    let mut i: usize = 0;
    proof {
        assert(xs.deep_view().take(0) =~= Seq::<StepV>::empty());
        assert(out@ =~= old(out)@ + seq!['['] + encode_steps_items(xs.deep_view().take(0)));
    }
    while i < xs.len()
        invariant
            i <= xs@.len(),
            xs.deep_view().len() == xs@.len(),
            out@ == old(out)@ + seq!['['] + encode_steps_items(xs.deep_view().take(i as int)),
        decreases xs@.len() - i,
    {
        let ghost dv = xs.deep_view();
        if i > 0 {
            push_char(out, ',');
        }
        encode_step_onto(out, &xs[i]);
        proof {
            assert(xs[i as int].deep_view() == dv[i as int]);
            lemma_encode_steps_items_snoc(dv.take(i as int), dv[i as int]);
            assert(dv.take(i + 1) =~= dv.take(i as int).push(dv[i as int]));
            assert(out@ =~= old(out)@ + seq!['['] + encode_steps_items(dv.take(i + 1)));
        }
        i = i + 1;
    }
    push_char(out, ']');
    proof {
        assert(xs.deep_view().take(xs@.len() as int) =~= xs.deep_view());
        assert(out@ =~= old(out)@ + encode_steps_array(xs.deep_view()));
    }
}

/// A pipeline document: its steps and an optional shared environment.
pub struct Pipeline {
    pub steps: Vec<Step>,
    pub env: Option<Vec<(String, String)>>,
}

/// The JSON of a pipeline document.
pub open spec fn encode_pipeline(steps: Seq<StepV>, env: Option<Seq<(Seq<char>, Seq<char>)>>) -> Seq<char> {
    "{\"steps\":"@ + encode_steps_array(steps) + opt_obj_field(",\"env\":"@, env) + "}"@
}

impl Pipeline {
    /// The document handed to the platform's pipeline upload.
    pub fn encode_json(&self) -> (r: String)
        ensures
            r@ == encode_pipeline(self.steps.deep_view(), self.env.deep_view()),
    {
        let mut out = String::new();
        out.append("{\"steps\":");
        encode_steps_onto(&mut out, &self.steps);
        push_opt_obj_field(&mut out, ",\"env\":", &self.env);
        out.append("}");
        proof {
            assert(out@ =~= encode_pipeline(self.steps.deep_view(), self.env.deep_view()));
        }
        out
    }
}

} // verus!
