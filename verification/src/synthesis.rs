//! Pipeline synthesis: from the evaluator's output and the self-invocation
//! command to the ordered step graph handed to the CI platform.
//!
//! The shape is fixed: one build step per target, a `wait-builds` barrier
//! only when the evaluator supplied extra steps, those steps with the
//! self-invocation placeholder substituted, a failure-tolerant `wait-final`
//! barrier, and a short-timeout `collect-results` step.  The result is
//! validated before it is returned: keys unique, every dependency present.

use vstd::prelude::*;

use crate::build_info::{label_spec, BuildEvaluation, FoundDerivationBuildV};
use crate::buildkite::{encode_steps_array, Step, StepV, WaitStep, WaitStepV};
use crate::command::{CommandStep, CommandStepV, DEFAULT_TIMEOUT_MINUTES};
use crate::flags::BuildkiteArgs;
use crate::plan::CommandPlan;
use crate::shell::join_quoted;
use crate::text::{replace_all, replace_seq};

verus! {

/// The placeholder evaluator-supplied commands may hold where the
/// self-invocation command belongs.
pub open spec fn placeholder() -> Seq<char> {
    "@tool@"@
}

/// The build step synthesized for one target.
pub open spec fn build_step_v(cmd: Seq<char>, key: Seq<char>, t: FoundDerivationBuildV) -> StepV {
    StepV::Command(
        CommandStepV {
            allow_dependency_failure: false,
            command: join_quoted(seq![cmd, "build"@, t.tag]),
            concurrency_group: None,
            depends_on: None,
            env: None,
            key: "build-"@ + key,
            label: Some(label_spec(t.name, t.build_type)),
            timeout_in_minutes: DEFAULT_TIMEOUT_MINUTES,
        },
    )
}

/// One build step per target, in the order the evaluator gave them.
pub open spec fn build_steps_v(
    cmd: Seq<char>,
    builds: Seq<(Seq<char>, FoundDerivationBuildV)>,
) -> Seq<StepV> {
    builds.map_values(|kv: (Seq<char>, FoundDerivationBuildV)| build_step_v(cmd, kv.0, kv.1))
}

/// The barrier between build steps and evaluator-supplied steps: tolerates
/// no failed dependency, so extra steps never run on failed builds.
pub open spec fn wait_builds_v() -> StepV {
    StepV::Wait(
        WaitStepV {
            allow_dependency_failure: false,
            continue_on_failure: false,
            depends_on: None,
            key: "wait-builds"@,
        },
    )
}

/// The final barrier: tolerant on both counts, so collection always runs.
pub open spec fn wait_final_v() -> StepV {
    StepV::Wait(
        WaitStepV {
            allow_dependency_failure: true,
            continue_on_failure: true,
            depends_on: None,
            key: "wait-final"@,
        },
    )
}

/// The trailing collection step: tolerant, and deliberately short-lived.
pub open spec fn collect_step_v(cmd: Seq<char>) -> StepV {
    StepV::Command(
        CommandStepV {
            allow_dependency_failure: true,
            command: join_quoted(seq![cmd, "collect"@]),
            concurrency_group: None,
            depends_on: None,
            env: None,
            key: "collect-results"@,
            label: Some(":shopping_trolley: collect results"@),
            timeout_in_minutes: 3,
        },
    )
}

/// An evaluator-supplied step after placeholder substitution: a command
/// step's command has every placeholder replaced by the self-invocation
/// command; every other step passes unchanged.
pub open spec fn subst_step_v(cmd: Seq<char>, s: StepV) -> StepV {
    match s {
        StepV::Command(c) => StepV::Command(
            CommandStepV { command: replace_seq(c.command, placeholder(), cmd), ..c },
        ),
        _ => s,
    }
}

/// The whole synthesized step sequence.
pub open spec fn synth_steps_v(
    cmd: Seq<char>,
    builds: Seq<(Seq<char>, FoundDerivationBuildV)>,
    extra: Seq<StepV>,
) -> Seq<StepV> {
    build_steps_v(cmd, builds) + (if extra.len() > 0 {
        seq![wait_builds_v()] + extra.map_values(|s| subst_step_v(cmd, s))
    } else {
        Seq::empty()
    }) + seq![wait_final_v(), collect_step_v(cmd)]
}

/// The key a step schedules under, if its kind carries one: a trigger's key
/// is its triggered build's, a block step has none.
pub open spec fn step_key(v: StepV) -> Option<Seq<char>> {
    match v {
        StepV::Command(c) => Some(c.key),
        StepV::Wait(w) => Some(w.key),
        StepV::Block(_) => None,
        StepV::Trigger(t) => Some(t.build.key),
    }
}

/// The keys other steps may depend on, in step order.
pub open spec fn keys_of(xs: Seq<StepV>) -> Seq<Seq<char>>
    decreases xs.len(),
{
    if xs.len() == 0 {
        Seq::empty()
    } else {
        (match step_key(xs[0]) {
            Some(k) => seq![k],
            None => Seq::empty(),
        }) + keys_of(xs.drop_first())
    }
}

/// No key occurs twice.
pub open spec fn no_dup(keys: Seq<Seq<char>>) -> bool {
    forall|a: int, b: int| 0 <= a < b < keys.len() ==> keys[a] != keys[b]
}

/// The keys a step depends on.
pub open spec fn step_deps(v: StepV) -> Seq<Seq<char>> {
    let d = match v {
        StepV::Command(c) => c.depends_on,
        StepV::Wait(w) => w.depends_on,
        StepV::Block(b) => b.depends_on,
        StepV::Trigger(t) => t.build.depends_on,
    };
    match d {
        Some(ds) => ds,
        None => Seq::empty(),
    }
}

/// Every dependency of `v` names one of `keys`.
pub open spec fn deps_contained(v: StepV, keys: Seq<Seq<char>>) -> bool {
    forall|d: int| 0 <= d < step_deps(v).len() ==> keys.contains(#[trigger] step_deps(v)[d])
}

/// Every dependency anywhere in the pipeline names an existing key.
pub open spec fn deps_closed(xs: Seq<StepV>) -> bool {
    forall|i: int| 0 <= i < xs.len() ==> deps_contained(#[trigger] xs[i], keys_of(xs))
}

/// A pipeline fit to upload: keys unique, dependencies closed.
pub open spec fn valid_pipeline(xs: Seq<StepV>) -> bool {
    no_dup(keys_of(xs)) && deps_closed(xs)
}

/// Why a synthesized pipeline was rejected rather than uploaded.
#[derive(Debug)]
pub enum SynthesisError {
    /// Two steps share this key.
    DuplicateKey(String),
    /// A step depends on this key, which no step has.
    DanglingDependency(String),
}

/// The document handed to the platform: the synthesized steps.
pub struct BuildkitePipeline {
    pub steps: Vec<Step>,
}

impl BuildkitePipeline {
    /// The JSON document for the pipeline upload.
    pub fn encode_json(&self) -> (r: String)
        ensures
            r@ == "{\"steps\":"@ + encode_steps_array(self.steps.deep_view()) + "}"@,
    {
        let mut out = String::new();
        out.append("{\"steps\":");
        crate::buildkite::encode_steps_onto(&mut out, &self.steps);
        out.append("}");
        proof {
            assert(out@ =~= "{\"steps\":"@ + encode_steps_array(self.steps.deep_view()) + "}"@);
        }
        out
    }
}

proof fn lemma_keys_of_snoc(xs: Seq<StepV>, x: StepV)
    ensures
        keys_of(xs.push(x)) == keys_of(xs) + (match step_key(x) {
            Some(k) => seq![k],
            None => Seq::<Seq<char>>::empty(),
        }),
    decreases xs.len(),
{
    let p = xs.push(x);
    let tailk = match step_key(x) {
        Some(k) => seq![k],
        None => Seq::<Seq<char>>::empty(),
    };
    if xs.len() == 0 {
        assert(p.len() == 1);
        assert(p[0] == x);
        assert(p.drop_first() =~= Seq::<StepV>::empty());
        assert(keys_of(p.drop_first()) == Seq::<Seq<char>>::empty());
        assert(tailk + Seq::<Seq<char>>::empty() =~= tailk);
        assert(keys_of(xs) + tailk =~= tailk);
    } else {
        assert(p[0] == xs[0]);
        assert(p.drop_first() =~= xs.drop_first().push(x));
        lemma_keys_of_snoc(xs.drop_first(), x);
        let headk = match step_key(xs[0]) {
            Some(k) => seq![k],
            None => Seq::<Seq<char>>::empty(),
        };
        assert(headk + (keys_of(xs.drop_first()) + tailk) =~= (headk + keys_of(xs.drop_first()))
            + tailk);
    }
}

/// The keys of the steps, as the platform would collect them.
fn collect_keys(steps: &Vec<Step>) -> (r: Vec<String>)
    ensures
        r.deep_view() == keys_of(steps.deep_view()),
{
    let mut r: Vec<String> = Vec::new();
    let mut i: usize = 0;
    proof {
        assert(steps.deep_view().take(0) =~= Seq::<StepV>::empty());
        assert(r.deep_view() =~= keys_of(steps.deep_view().take(0)));
    }
    while i < steps.len()
        invariant
            i <= steps@.len(),
            steps.deep_view().len() == steps@.len(),
            r.deep_view() == keys_of(steps.deep_view().take(i as int)),
        decreases steps@.len() - i,
    {
        let ghost dv = steps.deep_view();
        let ghost r0 = r.deep_view();
        match &steps[i] {
            Step::Command(c) => {
                r.push(c.key.clone());
            },
            Step::Wait(w) => {
                r.push(w.key.clone());
            },
            Step::Block(_) => {},
            Step::Trigger(t) => {
                r.push(t.build.key.clone());
            },
        }
        proof {
            assert(steps[i as int].deep_view() == dv[i as int]);
            lemma_keys_of_snoc(dv.take(i as int), dv[i as int]);
            assert(dv.take(i + 1) =~= dv.take(i as int).push(dv[i as int]));
            assert(r.deep_view() =~= keys_of(dv.take(i + 1)));
        }
        i = i + 1;
    }
    proof {
        assert(steps.deep_view().take(steps@.len() as int) =~= steps.deep_view());
    }
    r
}

/// Whether some element of `v` is the string `x`.
fn contains_string(v: &Vec<String>, x: &String) -> (r: bool)
    ensures
        r == v.deep_view().contains(x@),
{
    let mut i: usize = 0;
    while i < v.len()
        invariant
            i <= v@.len(),
            v.deep_view().len() == v@.len(),
            forall|j: int| 0 <= j < i ==> v.deep_view()[j] != x@,
        decreases v@.len() - i,
    {
        if v[i] == *x {
            proof {
                assert(v[i as int].deep_view() == v.deep_view()[i as int]);
                assert(v.deep_view()[i as int] == x@);
            }
            return true;
        }
        proof {
            assert(v[i as int].deep_view() == v.deep_view()[i as int]);
        }
        i = i + 1;
    }
    assert(forall|j: int| 0 <= j < v.deep_view().len() ==> v.deep_view()[j] != x@);
    false
}

/// The first key occurring twice, if any.
fn find_duplicate(v: &Vec<String>) -> (r: Option<String>)
    ensures
        match r {
            Some(k) => !no_dup(v.deep_view()) && v.deep_view().contains(k@),
            None => no_dup(v.deep_view()),
        },
{
    let mut i: usize = 1;
    while i < v.len()
        invariant
            1 <= i,
            v.deep_view().len() == v@.len(),
            forall|a: int, b: int| 0 <= a < b < i && b < v@.len() ==> v.deep_view()[a]
                != v.deep_view()[b],
        decreases v@.len() - i,
    {
        let mut j: usize = 0;
        while j < i
            invariant
                j <= i < v@.len(),
                v.deep_view().len() == v@.len(),
                forall|a: int| 0 <= a < j ==> v.deep_view()[a] != v.deep_view()[i as int],
            decreases i - j,
        {
            if v[j] == v[i] {
                proof {
                    assert(v[j as int].deep_view() == v.deep_view()[j as int]);
                    assert(v[i as int].deep_view() == v.deep_view()[i as int]);
                    assert(v.deep_view()[j as int] == v.deep_view()[i as int]);
                    assert(!no_dup(v.deep_view()));
                }
                let k = v[i].clone();
                proof {
                    assert(v.deep_view().contains(k@)) by {
                        assert(v.deep_view()[i as int] == k@);
                    }
                }
                return Some(k);
            }
            proof {
                assert(v[j as int].deep_view() == v.deep_view()[j as int]);
                assert(v[i as int].deep_view() == v.deep_view()[i as int]);
            }
            j = j + 1;
        }
        i = i + 1;
    }
    proof {
        assert(no_dup(v.deep_view()));
    }
    None
}

/// A dependency of `s` that names none of `keys`, if any.
fn step_deps_check(s: &Step, keys: &Vec<String>) -> (r: Option<String>)
    ensures
        match r {
            Some(d) => !deps_contained(s@, keys.deep_view()) && !keys.deep_view().contains(d@),
            None => deps_contained(s@, keys.deep_view()),
        },
{
    let deps: &Option<Vec<String>> = match s {
        Step::Command(c) => &c.depends_on,
        Step::Wait(w) => &w.depends_on,
        Step::Block(b) => &b.depends_on,
        Step::Trigger(t) => &t.build.depends_on,
    };
    match deps {
        None => {
            assert(step_deps(s@) =~= Seq::<Seq<char>>::empty());
            None
        },
        Some(dl) => {
            assert(step_deps(s@) == dl.deep_view());
            let mut j: usize = 0;
            while j < dl.len()
                invariant
                    j <= dl@.len(),
                    dl.deep_view().len() == dl@.len(),
                    step_deps(s@) == dl.deep_view(),
                    keys.deep_view() == keys.deep_view(),
                    forall|d: int| 0 <= d < j ==> keys.deep_view().contains(
                        #[trigger] dl.deep_view()[d],
                    ),
                decreases dl@.len() - j,
            {
                let present = contains_string(keys, &dl[j]);
                proof {
                    assert(dl[j as int].deep_view() == dl.deep_view()[j as int]);
                }
                if !present {
                    let d = dl[j].clone();
                    proof {
                        assert(!keys.deep_view().contains(d@));
                        assert(step_deps(s@)[j as int] == d@);
                        assert(!deps_contained(s@, keys.deep_view()));
                    }
                    return Some(d);
                }
                j = j + 1;
            }
            None
        },
    }
}

/// Synthesizes the pipeline for an evaluation: one build step per target, a
/// `wait-builds` barrier only when extra steps exist, the extra steps with
/// the placeholder substituted, the tolerant final barrier, and the
/// collection step — validated, so a returned pipeline has unique keys and
/// no dangling dependency.
pub fn make_buildkite_pipeline(cmd: String, eval: BuildEvaluation) -> (r: Result<
    BuildkitePipeline,
    SynthesisError,
>)
    ensures
        ({
            let model = synth_steps_v(cmd@, eval.builds.deep_view(), eval.steps.deep_view());
            &&& (r is Ok <==> valid_pipeline(model))
            &&& (r matches Ok(p) ==> p.steps.deep_view() == model)
            &&& (r matches Err(SynthesisError::DuplicateKey(k)) ==> !no_dup(keys_of(model))
                && keys_of(model).contains(k@))
            &&& (r matches Err(SynthesisError::DanglingDependency(d)) ==> no_dup(keys_of(model))
                && !deps_closed(model) && !keys_of(model).contains(d@))
        }),
{
    let ghost bdv = eval.builds.deep_view();
    let ghost edv = eval.steps.deep_view();
    let ghost model = synth_steps_v(cmd@, bdv, edv);
    let mut steps: Vec<Step> = Vec::new();
    let mut i: usize = 0;
    proof {
        assert(bdv.take(0) =~= Seq::<(Seq<char>, FoundDerivationBuildV)>::empty());
        assert(steps.deep_view() =~= build_steps_v(cmd@, bdv.take(0)));
    }
    while i < eval.builds.len()
        invariant
            i <= eval.builds@.len(),
            eval.builds.deep_view() == bdv,
            bdv.len() == eval.builds@.len(),
            steps.deep_view() == build_steps_v(cmd@, bdv.take(i as int)),
        decreases eval.builds@.len() - i,
    {
        let ghost steps0 = steps.deep_view();
        let mut b = CommandStep::builder();
        b.set_label(eval.builds[i].1.label());
        let mut keystr = String::from_str("build-");
        keystr.append(eval.builds[i].0.as_str());
        let mut cmdvec: Vec<String> = Vec::new();
        cmdvec.push(cmd.clone());
        cmdvec.push(String::from_str("build"));
        cmdvec.push(eval.builds[i].1.tag.clone());
        assert(cmdvec.deep_view() =~= seq![cmd@, "build"@, eval.builds[i as int].1.tag@]);
        let built = b.build(keystr, cmdvec);
        steps.push(Step::Command(built));
        proof {
            assert(eval.builds[i as int].deep_view() == bdv[i as int]);
            assert(Step::Command(built).deep_view() == build_step_v(
                cmd@,
                bdv[i as int].0,
                bdv[i as int].1,
            ));
            assert(bdv.take(i + 1) =~= bdv.take(i as int).push(bdv[i as int]));
            assert(build_steps_v(cmd@, bdv.take(i + 1)) =~= build_steps_v(
                cmd@,
                bdv.take(i as int),
            ).push(build_step_v(cmd@, bdv[i as int].0, bdv[i as int].1)));
            assert(steps.deep_view() =~= steps0.push(Step::Command(built).deep_view()));
        }
        i = i + 1;
    }
    proof {
        assert(bdv.take(eval.builds@.len() as int) =~= bdv);
    }
    let ghost part_a = build_steps_v(cmd@, bdv);
    if eval.steps.len() > 0 {
        let wb = WaitStep::builder();
        let wstep = wb.build(String::from_str("wait-builds"));
        steps.push(Step::Wait(wstep));
        assert(Step::Wait(wstep).deep_view() == wait_builds_v());
        let ghost mid0 = steps.deep_view();
        assert(mid0 =~= part_a + seq![wait_builds_v()]);
        let n = eval.steps.len();
        let mut subbed: Vec<Step> = Vec::new();
        let mut j: usize = 0;
        while j < n
            invariant
                j <= n,
                n == eval.steps@.len(),
                eval.steps.deep_view() == edv,
                edv.len() == n,
                subbed.deep_view().len() == j,
                forall|k: int| 0 <= k < j ==> subbed.deep_view()[k] == subst_step_v(
                    cmd@,
                    #[trigger] edv[k],
                ),
            decreases n - j,
        {
            match &eval.steps[j] {
                Step::Command(c) => {
                    let nc = CommandStep {
                        allow_dependency_failure: c.allow_dependency_failure,
                        command: replace_all(c.command.as_str(), "@tool@", cmd.as_str()),
                        concurrency_group: crate::env::clone_opt_string(&c.concurrency_group),
                        depends_on: crate::env::clone_opt_string_vec(&c.depends_on),
                        env: crate::env::clone_opt_kv_vec(&c.env),
                        key: c.key.clone(),
                        label: crate::env::clone_opt_string(&c.label),
                        timeout_in_minutes: c.timeout_in_minutes,
                    };
                    subbed.push(Step::Command(nc));
                },
                other => {
                    subbed.push(other.clone());
                },
            }
            proof {
                assert(eval.steps[j as int].deep_view() == edv[j as int]);
                assert(subbed.deep_view()[j as int] == subst_step_v(cmd@, edv[j as int]));
            }
            j = j + 1;
        }
        proof {
            assert(subbed.deep_view() =~= edv.map_values(|s| subst_step_v(cmd@, s)));
        }
        steps.append(&mut subbed);
        proof {
            assert(steps.deep_view() =~= part_a + (seq![wait_builds_v()] + edv.map_values(
                |s| subst_step_v(cmd@, s),
            )));
        }
    }
    let ghost part_ab = steps.deep_view();
    let mut wfb = WaitStep::builder();
    wfb.set_allow_dependency_failure(true);
    wfb.set_continue_on_failure(true);
    let wait_final_step = wfb.build(String::from_str("wait-final"));
    steps.push(Step::Wait(wait_final_step));
    assert(Step::Wait(wait_final_step).deep_view() == wait_final_v());
    let mut cb = CommandStep::builder();
    cb.set_label(String::from_str(":shopping_trolley: collect results"));
    cb.set_timeout_in_minutes(3);
    cb.set_allow_dependency_failure(true);
    let mut collect_vec: Vec<String> = Vec::new();
    collect_vec.push(cmd.clone());
    collect_vec.push(String::from_str("collect"));
    assert(collect_vec.deep_view() =~= seq![cmd@, "collect"@]);
    let collect_step = cb.build(String::from_str("collect-results"), collect_vec);
    steps.push(Step::Command(collect_step));
    proof {
        assert(Step::Command(collect_step).deep_view() == collect_step_v(cmd@));
        assert(steps.deep_view() =~= part_ab + seq![wait_final_v(), collect_step_v(cmd@)]);
        assert(steps.deep_view() =~= model);
    }
    // Validation: never hand the platform a graph with duplicate keys or
    // dangling dependencies.
    let keys = collect_keys(&steps);
    match find_duplicate(&keys) {
        Some(k) => {
            return Err(SynthesisError::DuplicateKey(k));
        },
        None => {},
    }
    let mut si: usize = 0;
    while si < steps.len()
        invariant
            si <= steps@.len(),
            eval.builds.deep_view() == bdv,
            eval.steps.deep_view() == edv,
            model == synth_steps_v(cmd@, bdv, edv),
            steps.deep_view() == model,
            steps.deep_view().len() == steps@.len(),
            keys.deep_view() == keys_of(model),
            no_dup(keys_of(model)),
            forall|k: int| 0 <= k < si ==> deps_contained(#[trigger] model[k], keys_of(model)),
        decreases steps@.len() - si,
    {
        match step_deps_check(&steps[si], &keys) {
            Some(d) => {
                proof {
                    assert(steps[si as int]@ == steps[si as int].deep_view());
                    assert(steps[si as int].deep_view() == model[si as int]);
                    assert(!deps_contained(model[si as int], keys_of(model)));
                    assert(!deps_closed(model)) by {
                        if deps_closed(model) {
                            assert(deps_contained(model[si as int], keys_of(model)));
                        }
                    }
                }
                return Err(SynthesisError::DanglingDependency(d));
            },
            None => {
                proof {
                    assert(steps[si as int].deep_view() == model[si as int]);
                }
            },
        }
        si = si + 1;
    }
    proof {
        assert(deps_closed(model));
    }
    Ok(BuildkitePipeline { steps })
}

/// Nothing is recorded yet at collection time; the step succeeds with a
/// zero exit code.
pub fn collect_final_pipeline_state(_args: BuildkiteArgs) -> (r: Result<i32, CollectError>)
    ensures
        r matches Ok(c) && c == 0i32,
{
    Ok(0)
}

/// Why collecting final state failed.  No collection failure exists yet:
/// no value of this type is ever made.
#[derive(Debug)]
pub struct CollectError {}

/// The subprocess invocation for running `nix` against a flake target: the
/// requested action's arguments, then the target spelled `.#<target>`.
pub fn nix_action(action: Vec<String>, target: &str) -> (r: CommandPlan)
    ensures
        r.is_bare("nix"@, action.deep_view() + seq![".#"@ + target@]),
{
    let mut args = action;
    let mut tgt = String::from_str(".#");
    tgt.append(target);
    let ghost adv = args.deep_view();
    args.push(tgt);
    assert(args.deep_view() =~= adv.push(".#"@ + target@));
    let r = CommandPlan {
        program: String::from_str("nix"),
        args,
        env: Vec::new(),
        current_dir: None,
        stdin: None,
    };
    assert(r.env.deep_view() =~= Seq::<(Seq<char>, Seq<char>)>::empty());
    assert(r.args.deep_view() =~= adv + seq![".#"@ + target@]);
    r
}

/// Barrier insertion: with no evaluator-supplied steps no `wait-builds`
/// barrier exists anywhere in the pipeline; with some, the barrier stands
/// directly after the build steps and before every supplied step.
pub proof fn lemma_barrier_insertion(
    cmd: Seq<char>,
    builds: Seq<(Seq<char>, FoundDerivationBuildV)>,
    extra: Seq<StepV>,
)
    ensures
        extra.len() == 0 ==> forall|i: int|
            0 <= i < synth_steps_v(cmd, builds, extra).len() ==> step_key(
                #[trigger] synth_steps_v(cmd, builds, extra)[i],
            ) != Some("wait-builds"@),
        extra.len() > 0 ==> {
            let s = synth_steps_v(cmd, builds, extra);
            &&& s.len() == builds.len() + 1 + extra.len() + 2
            &&& s[builds.len() as int] == wait_builds_v()
            &&& (forall|i: int|
                0 <= i < builds.len() ==> #[trigger] s[i] == build_step_v(
                    cmd,
                    builds[i].0,
                    builds[i].1,
                ))
            &&& (forall|j: int|
                0 <= j < extra.len() ==> #[trigger] s[builds.len() + 1 + j] == subst_step_v(
                    cmd,
                    extra[j],
                ))
        },
{
    reveal_strlit("build-");
    reveal_strlit("wait-builds");
    reveal_strlit("wait-final");
    reveal_strlit("collect-results");
    let s = synth_steps_v(cmd, builds, extra);
    let a = build_steps_v(cmd, builds);
    let t = seq![wait_final_v(), collect_step_v(cmd)];
    assert(a.len() == builds.len());
    if extra.len() == 0 {
        let m = Seq::<StepV>::empty();
        assert(s =~= a + t);
        assert(s.len() == builds.len() + 2);
        assert forall|i: int| 0 <= i < s.len() implies step_key(#[trigger] s[i]) != Some(
            "wait-builds"@,
        ) by {
            if i < a.len() {
                assert(s[i] == a[i]);
                assert(a[i] == build_step_v(cmd, builds[i].0, builds[i].1));
                let bk = "build-"@ + builds[i].0;
                assert(step_key(s[i]) == Some(bk));
                assert(bk[0] == 'b');
                assert("wait-builds"@[0] == 'w');
                assert(bk != "wait-builds"@);
            } else if i == a.len() {
                assert(s[i] == wait_final_v());
                assert(("wait-final"@).len() == 10);
                assert(("wait-builds"@).len() == 11);
            } else {
                assert(s[i] == collect_step_v(cmd));
                assert(("collect-results"@).len() == 15);
                assert(("wait-builds"@).len() == 11);
            }
        }
    } else {
        let sub = extra.map_values(|x| subst_step_v(cmd, x));
        let m = seq![wait_builds_v()] + sub;
        assert(s =~= a + m + t);
        assert(s.len() == builds.len() + 1 + extra.len() + 2);
        assert(s[builds.len() as int] == m[0]);
        assert forall|i: int| 0 <= i < builds.len() implies #[trigger] s[i] == build_step_v(
            cmd,
            builds[i].0,
            builds[i].1,
        ) by {
            assert(s[i] == a[i]);
        }
        assert forall|j: int| 0 <= j < extra.len() implies #[trigger] s[builds.len() + 1 + j]
            == subst_step_v(cmd, extra[j]) by {
            assert(s[builds.len() + 1 + j] == m[1 + j]);
            assert(m[1 + j] == sub[j]);
        }
    }
}

/// Tail shape: every synthesized pipeline ends with the tolerant final
/// barrier and then the tolerant, three-minute collection step.
pub proof fn lemma_tail_shape(
    cmd: Seq<char>,
    builds: Seq<(Seq<char>, FoundDerivationBuildV)>,
    extra: Seq<StepV>,
)
    ensures
        ({
            let s = synth_steps_v(cmd, builds, extra);
            &&& s.len() >= 2
            &&& s[s.len() - 2] == wait_final_v()
            &&& s[s.len() - 1] == collect_step_v(cmd)
            &&& (s[s.len() - 2] matches StepV::Wait(w) && w.allow_dependency_failure
                && w.continue_on_failure)
            &&& (s[s.len() - 1] matches StepV::Command(c) && c.key == "collect-results"@
                && c.allow_dependency_failure && c.timeout_in_minutes == 3)
        }),
{
    let s = synth_steps_v(cmd, builds, extra);
    let a = build_steps_v(cmd, builds);
    let m = if extra.len() > 0 {
        seq![wait_builds_v()] + extra.map_values(|x| subst_step_v(cmd, x))
    } else {
        Seq::<StepV>::empty()
    };
    let t = seq![wait_final_v(), collect_step_v(cmd)];
    assert(s =~= (a + m) + t);
    assert(s.len() == a.len() + m.len() + 2);
    assert(s[s.len() - 2] == t[0]);
    assert(s[s.len() - 1] == t[1]);
}

/// Template substitution: an evaluator-supplied command step whose command
/// holds the placeholder once comes out with the self-invocation command in
/// its place, verbatim, and no other text or field altered.
pub proof fn lemma_placeholder_substitution(
    cmd: Seq<char>,
    c: CommandStepV,
    a: Seq<char>,
    b: Seq<char>,
)
    requires
        c.command == a + placeholder() + b,
        forall|i: int|
            0 <= i < a.len() ==> !crate::text::occurs_at(a + placeholder() + b, placeholder(), i),
        forall|i: int| !crate::text::occurs_at(b, placeholder(), i),
    ensures
        subst_step_v(cmd, StepV::Command(c)) matches StepV::Command(c2) && c2 == (CommandStepV {
            command: a + cmd + b,
            ..c
        }),
{
    reveal_strlit("@tool@");
    assert(placeholder().len() == 6);
    crate::text::lemma_single_substitution(a, placeholder(), b, cmd);
}

proof fn lemma_keys_of_concat(a: Seq<StepV>, b: Seq<StepV>)
    ensures
        keys_of(a + b) == keys_of(a) + keys_of(b),
    decreases a.len(),
{
    if a.len() == 0 {
        assert(a + b =~= b);
        assert(keys_of(a) == Seq::<Seq<char>>::empty());
        assert(keys_of(a) + keys_of(b) =~= keys_of(b));
    } else {
        assert((a + b)[0] == a[0]);
        assert((a + b).drop_first() =~= a.drop_first() + b);
        lemma_keys_of_concat(a.drop_first(), b);
        let headk = match step_key(a[0]) {
            Some(k) => seq![k],
            None => Seq::<Seq<char>>::empty(),
        };
        assert(keys_of(a + b) == headk + (keys_of(a.drop_first()) + keys_of(b)));
        assert(headk + (keys_of(a.drop_first()) + keys_of(b)) =~= (headk + keys_of(
            a.drop_first(),
        )) + keys_of(b));
    }
}

proof fn lemma_keys_of_build_steps(cmd: Seq<char>, builds: Seq<(Seq<char>, FoundDerivationBuildV)>)
    ensures
        keys_of(build_steps_v(cmd, builds)).len() == builds.len(),
        forall|i: int|
            0 <= i < builds.len() ==> #[trigger] keys_of(build_steps_v(cmd, builds))[i]
                == "build-"@ + builds[i].0,
    decreases builds.len(),
{
    let bs = build_steps_v(cmd, builds);
    if builds.len() == 0 {
    } else {
        assert(bs[0] == build_step_v(cmd, builds[0].0, builds[0].1));
        assert(step_key(bs[0]) == Some("build-"@ + builds[0].0));
        assert(bs.drop_first() =~= build_steps_v(cmd, builds.drop_first()));
        lemma_keys_of_build_steps(cmd, builds.drop_first());
        assert(keys_of(bs) == seq!["build-"@ + builds[0].0] + keys_of(
            build_steps_v(cmd, builds.drop_first()),
        ));
    }
}

proof fn lemma_keys_of_subst(cmd: Seq<char>, extra: Seq<StepV>)
    ensures
        keys_of(extra.map_values(|s| subst_step_v(cmd, s))) == keys_of(extra),
    decreases extra.len(),
{
    let m = extra.map_values(|s| subst_step_v(cmd, s));
    if extra.len() == 0 {
        assert(m =~= Seq::<StepV>::empty());
    } else {
        assert(m[0] == subst_step_v(cmd, extra[0]));
        assert(step_key(m[0]) == step_key(extra[0]));
        assert(m.drop_first() =~= extra.drop_first().map_values(|s| subst_step_v(cmd, s)));
        lemma_keys_of_subst(cmd, extra.drop_first());
    }
}

/// When success is owed on the key side: with distinct target keys and
/// evaluator-supplied keys that neither repeat, nor collide with a build
/// step's key, nor take one of the three reserved keys, the synthesized
/// pipeline's keys are unique.
#[verifier::rlimit(100)]
pub proof fn lemma_synthesized_keys_unique(
    cmd: Seq<char>,
    builds: Seq<(Seq<char>, FoundDerivationBuildV)>,
    extra: Seq<StepV>,
)
    requires
        no_dup(builds.map_values(|kv: (Seq<char>, FoundDerivationBuildV)| kv.0)),
        no_dup(keys_of(extra)),
        forall|k: Seq<char>|
            keys_of(extra).contains(k) ==> k != "wait-builds"@ && k != "wait-final"@ && k
                != "collect-results"@,
        forall|k: Seq<char>, j: int|
            #[trigger] keys_of(extra).contains(k) && 0 <= j < builds.len() ==> k != "build-"@
                + #[trigger] builds[j].0,
    ensures
        no_dup(keys_of(synth_steps_v(cmd, builds, extra))),
{
    reveal_strlit("build-");
    reveal_strlit("wait-builds");
    reveal_strlit("wait-final");
    reveal_strlit("collect-results");
    let s = synth_steps_v(cmd, builds, extra);
    let a = build_steps_v(cmd, builds);
    let m: Seq<StepV> = if extra.len() > 0 {
        seq![wait_builds_v()] + extra.map_values(|x| subst_step_v(cmd, x))
    } else {
        Seq::empty()
    };
    let t = seq![wait_final_v(), collect_step_v(cmd)];
    assert(s == a + m + t);
    lemma_keys_of_concat(a + m, t);
    lemma_keys_of_concat(a, m);
    lemma_keys_of_build_steps(cmd, builds);
    let ka = keys_of(a);
    let kt = keys_of(t);
    let t1 = t.drop_first();
    assert(t1 =~= seq![collect_step_v(cmd)]);
    assert(t1.drop_first() =~= Seq::<StepV>::empty());
    assert(keys_of(Seq::<StepV>::empty()) == Seq::<Seq<char>>::empty());
    assert(keys_of(t1) =~= seq!["collect-results"@]);
    assert(kt =~= seq!["wait-final"@, "collect-results"@]);
    let km: Seq<Seq<char>> = if extra.len() > 0 {
        seq!["wait-builds"@] + keys_of(extra)
    } else {
        Seq::empty()
    };
    if extra.len() > 0 {
        lemma_keys_of_concat(
            seq![wait_builds_v()],
            extra.map_values(|x| subst_step_v(cmd, x)),
        );
        lemma_keys_of_subst(cmd, extra);
        assert(seq![wait_builds_v()].drop_first() =~= Seq::<StepV>::empty());
        assert(keys_of(Seq::<StepV>::empty()) == Seq::<Seq<char>>::empty());
        assert(keys_of(seq![wait_builds_v()]) =~= seq!["wait-builds"@]);
        assert(keys_of(m) == km);
    } else {
        assert(m =~= Seq::<StepV>::empty());
        assert(keys_of(m) =~= km);
    }
    let keys = keys_of(s);
    assert(keys == (ka + keys_of(m)) + kt);
    assert(keys =~= ka + km + kt);
    // Any two build keys with distinct inputs differ: the shared prefix
    // cancels.
    assert forall|x: int, y: int| 0 <= x < y < builds.len() implies ka[x] != ka[y] by {
        assert(builds.map_values(|kv: (Seq<char>, FoundDerivationBuildV)| kv.0)[x]
            == builds[x].0);
        assert(builds.map_values(|kv: (Seq<char>, FoundDerivationBuildV)| kv.0)[y]
            == builds[y].0);
        assert(builds[x].0 != builds[y].0);
        if ka[x] == ka[y] {
            assert(("build-"@ + builds[x].0).skip(6) =~= builds[x].0);
            assert(("build-"@ + builds[y].0).skip(6) =~= builds[y].0);
        }
    }
    // Build keys start with a letter none of the fixed keys start with.
    assert forall|x: int| 0 <= x < builds.len() implies (#[trigger] ka[x])[0] == 'b' by {
        assert(ka[x] == "build-"@ + builds[x].0);
        assert(("build-"@ + builds[x].0)[0] == 'b');
    }
    assert(("wait-builds"@)[0] == 'w' && ("wait-final"@)[0] == 'w' && ("collect-results"@)[0]
        == 'c');
    assert forall|p: int, q: int| 0 <= p < q < keys.len() implies keys[p] != keys[q] by {
        let na = ka.len() as int;
        let nm = km.len() as int;
        assert(keys.len() == na + nm + 2);
        if q < na {
            assert(keys[p] == ka[p] && keys[q] == ka[q]);
        } else if p < na && q < na + nm {
            // A build key against the barrier or a supplied key.
            assert(keys[p] == ka[p]);
            assert(keys[q] == km[q - na]);
            if q - na == 0 {
                assert(km[0] == "wait-builds"@);
                assert(keys[p][0] == 'b');
            } else {
                assert(km[q - na] == keys_of(extra)[q - na - 1]);
                assert(keys_of(extra).contains(keys_of(extra)[q - na - 1]));
                assert(keys[p] == "build-"@ + builds[p].0);
            }
        } else if p < na {
            // A build key against the tail.
            assert(keys[q] == kt[q - na - nm]);
            assert(keys[p][0] == 'b');
            assert(kt[q - na - nm][0] == 'w' || kt[q - na - nm][0] == 'c');
        } else if q < na + nm {
            // Two middle keys: the barrier and supplied keys.
            assert(keys[p] == km[p - na] && keys[q] == km[q - na]);
            if p - na == 0 {
                assert(km[q - na] == keys_of(extra)[q - na - 1]);
                assert(keys_of(extra).contains(keys_of(extra)[q - na - 1]));
            } else {
                assert(km[p - na] == keys_of(extra)[p - na - 1]);
                assert(km[q - na] == keys_of(extra)[q - na - 1]);
            }
        } else if p < na + nm {
            // A middle key against the tail.
            assert(keys[p] == km[p - na]);
            assert(keys[q] == kt[q - na - nm]);
            if p - na == 0 {
                assert(km[0] == "wait-builds"@);
                assert(("wait-builds"@).len() == 11);
                assert(("wait-final"@).len() == 10);
                assert(("collect-results"@).len() == 15);
            } else {
                assert(km[p - na] == keys_of(extra)[p - na - 1]);
                assert(keys_of(extra).contains(keys_of(extra)[p - na - 1]));
            }
        } else {
            // The two tail keys.
            assert(keys[p] == kt[p - na - nm] && keys[q] == kt[q - na - nm]);
            assert(("wait-final"@).len() == 10 && ("collect-results"@).len() == 15);
        }
    }
}

/// A key a supplied step may depend on: a synthesized build step's key, a
/// key of another supplied step, or one of the three fixed keys.
pub open spec fn dep_available(
    k: Seq<char>,
    builds: Seq<(Seq<char>, FoundDerivationBuildV)>,
    extra: Seq<StepV>,
) -> bool {
    ||| exists|j: int| 0 <= j < builds.len() && k == "build-"@ + #[trigger] builds[j].0
    ||| keys_of(extra).contains(k)
    ||| k == "wait-builds"@
    ||| k == "wait-final"@
    ||| k == "collect-results"@
}

proof fn lemma_synth_keys_layout(
    cmd: Seq<char>,
    builds: Seq<(Seq<char>, FoundDerivationBuildV)>,
    extra: Seq<StepV>,
)
    ensures
        ({
            let keys = keys_of(synth_steps_v(cmd, builds, extra));
            let nm: int = if extra.len() > 0 {
                1 + keys_of(extra).len() as int
            } else {
                0
            };
            &&& keys.len() == builds.len() + nm + 2
            &&& (forall|i: int|
                0 <= i < builds.len() ==> #[trigger] keys[i] == "build-"@ + builds[i].0)
            &&& (extra.len() > 0 ==> keys[builds.len() as int] == "wait-builds"@)
            &&& (extra.len() > 0 ==> forall|p: int|
                0 <= p < keys_of(extra).len() ==> #[trigger] keys[builds.len() + 1 + p]
                    == keys_of(extra)[p])
            &&& keys[keys.len() - 2] == "wait-final"@
            &&& keys[keys.len() - 1] == "collect-results"@
        }),
{
    let s = synth_steps_v(cmd, builds, extra);
    let a = build_steps_v(cmd, builds);
    let m: Seq<StepV> = if extra.len() > 0 {
        seq![wait_builds_v()] + extra.map_values(|x| subst_step_v(cmd, x))
    } else {
        Seq::empty()
    };
    let t = seq![wait_final_v(), collect_step_v(cmd)];
    assert(s == a + m + t);
    lemma_keys_of_concat(a + m, t);
    lemma_keys_of_concat(a, m);
    lemma_keys_of_build_steps(cmd, builds);
    let t1 = t.drop_first();
    assert(t1 =~= seq![collect_step_v(cmd)]);
    assert(t1.drop_first() =~= Seq::<StepV>::empty());
    assert(keys_of(Seq::<StepV>::empty()) == Seq::<Seq<char>>::empty());
    assert(keys_of(t1) =~= seq!["collect-results"@]);
    assert(keys_of(t) =~= seq!["wait-final"@, "collect-results"@]);
    if extra.len() > 0 {
        lemma_keys_of_concat(seq![wait_builds_v()], extra.map_values(|x| subst_step_v(cmd, x)));
        lemma_keys_of_subst(cmd, extra);
        assert(seq![wait_builds_v()].drop_first() =~= Seq::<StepV>::empty());
        assert(keys_of(seq![wait_builds_v()]) =~= seq!["wait-builds"@]);
        assert(keys_of(m) =~= seq!["wait-builds"@] + keys_of(extra));
    } else {
        assert(m =~= Seq::<StepV>::empty());
        assert(keys_of(m) =~= Seq::<Seq<char>>::empty());
    }
    assert(keys_of(s) == (keys_of(a) + keys_of(m)) + keys_of(t));
}

/// When success is owed: with distinct, non-colliding keys as in
/// [`lemma_synthesized_keys_unique`], and every dependency of a supplied
/// step naming an available key, the synthesized pipeline is valid, so
/// synthesis returns it.
#[verifier::rlimit(100)]
pub proof fn lemma_synthesis_accepts(
    cmd: Seq<char>,
    builds: Seq<(Seq<char>, FoundDerivationBuildV)>,
    extra: Seq<StepV>,
)
    requires
        no_dup(builds.map_values(|kv: (Seq<char>, FoundDerivationBuildV)| kv.0)),
        no_dup(keys_of(extra)),
        forall|k: Seq<char>|
            #[trigger] keys_of(extra).contains(k) ==> k != "wait-builds"@ && k != "wait-final"@
                && k != "collect-results"@,
        forall|k: Seq<char>, j: int|
            #[trigger] keys_of(extra).contains(k) && 0 <= j < builds.len() ==> k != "build-"@
                + #[trigger] builds[j].0,
        forall|i: int, d: int|
            0 <= i < extra.len() && 0 <= d < step_deps(#[trigger] extra[i]).len()
                ==> dep_available(#[trigger] step_deps(extra[i])[d], builds, extra),
    ensures
        valid_pipeline(synth_steps_v(cmd, builds, extra)),
{
    lemma_synthesized_keys_unique(cmd, builds, extra);
    lemma_synth_keys_layout(cmd, builds, extra);
    let s = synth_steps_v(cmd, builds, extra);
    let keys = keys_of(s);
    let na: int = builds.len() as int;
    let a = build_steps_v(cmd, builds);
    let m: Seq<StepV> = if extra.len() > 0 {
        seq![wait_builds_v()] + extra.map_values(|x| subst_step_v(cmd, x))
    } else {
        Seq::empty()
    };
    let t = seq![wait_final_v(), collect_step_v(cmd)];
    assert(s == a + m + t);
    assert(a.len() == na);
    assert forall|i: int| 0 <= i < s.len() implies deps_contained(#[trigger] s[i], keys) by {
        if i < na {
            assert(s[i] == a[i]);
            assert(a[i] == build_step_v(cmd, builds[i].0, builds[i].1));
            assert(step_deps(s[i]) =~= Seq::<Seq<char>>::empty());
        } else if i < na + m.len() {
            assert(s[i] == m[i - na]);
            if i - na == 0 {
                assert(m[0] == wait_builds_v());
                assert(step_deps(s[i]) =~= Seq::<Seq<char>>::empty());
            } else {
                let j = i - na - 1;
                assert(m[i - na] == subst_step_v(cmd, extra[j]));
                assert(step_deps(subst_step_v(cmd, extra[j])) == step_deps(extra[j]));
                assert forall|d: int| 0 <= d < step_deps(s[i]).len() implies keys.contains(
                    #[trigger] step_deps(s[i])[d],
                ) by {
                    let dep = step_deps(extra[j])[d];
                    assert(dep_available(dep, builds, extra));
                    if exists|j2: int| 0 <= j2 < builds.len() && dep == "build-"@
                        + #[trigger] builds[j2].0 {
                        let j2 = choose|j2: int|
                            0 <= j2 < builds.len() && dep == "build-"@ + #[trigger] builds[j2].0;
                        assert(keys[j2] == dep);
                        assert(keys.contains(dep));
                    } else if keys_of(extra).contains(dep) {
                        assert(exists|p2: int|
                            0 <= p2 < keys_of(extra).len() && keys_of(extra)[p2] == dep);
                        let p = choose|p2: int|
                            0 <= p2 < keys_of(extra).len() && keys_of(extra)[p2] == dep;
                        assert(0 <= p < keys_of(extra).len() && keys_of(extra)[p] == dep);
                        assert(keys[builds.len() + 1 + p] == keys_of(extra)[p]);
                        assert(keys[na + 1 + p] == dep);
                        assert(keys.contains(dep));
                    } else if dep == "wait-builds"@ {
                        assert(keys[na] == dep);
                        assert(keys.contains(dep));
                    } else if dep == "wait-final"@ {
                        assert(keys[keys.len() - 2] == dep);
                        assert(keys.contains(dep));
                    } else {
                        assert(dep == "collect-results"@);
                        assert(keys[keys.len() - 1] == dep);
                        assert(keys.contains(dep));
                    }
                }
            }
        } else {
            assert(s[i] == t[i - na - m.len()]);
            assert(step_deps(wait_final_v()) =~= Seq::<Seq<char>>::empty());
            assert(step_deps(collect_step_v(cmd)) =~= Seq::<Seq<char>>::empty());
        }
    }
}

/// A synthesized build step's command line, split by a POSIX-compatible
/// tokenizer, is exactly the self-invocation command, the build subcommand
/// and the target's evaluation tag — whatever characters they hold.
pub proof fn lemma_build_command_round_trip(
    cmd: Seq<char>,
    key: Seq<char>,
    t: FoundDerivationBuildV,
)
    ensures
        build_step_v(cmd, key, t) matches StepV::Command(c) && crate::shell::tokenize(c.command)
            == Some(seq![cmd, "build"@, t.tag]),
{
    crate::shell::lemma_quote_round_trip(seq![cmd, "build"@, t.tag]);
}

/// Synthesis is a function of its inputs: for one evaluator result and one
/// self-invocation command, every synthesis yields the same step sequence,
/// and so the same keys.
pub proof fn lemma_synthesis_deterministic(
    cmd: Seq<char>,
    builds: Seq<(Seq<char>, FoundDerivationBuildV)>,
    extra: Seq<StepV>,
    s1: Seq<StepV>,
    s2: Seq<StepV>,
)
    requires
        s1 == synth_steps_v(cmd, builds, extra),
        s2 == synth_steps_v(cmd, builds, extra),
    ensures
        s1 == s2,
        keys_of(s1) == keys_of(s2),
{
}

/// What validity gives every accepted pipeline: no two steps share a key,
/// and every dependency entry names a key some step has.
pub proof fn lemma_valid_pipeline_unfolded(xs: Seq<StepV>)
    requires
        valid_pipeline(xs),
    ensures
        forall|a: int, b: int| 0 <= a < b < keys_of(xs).len() ==> keys_of(xs)[a] != keys_of(xs)[b],
        forall|i: int, d: int|
            0 <= i < xs.len() && 0 <= d < step_deps(xs[i]).len() ==> keys_of(xs).contains(
                #[trigger] step_deps(xs[i])[d],
            ),
{
    assert forall|i: int, d: int|
        0 <= i < xs.len() && 0 <= d < step_deps(xs[i]).len() implies keys_of(xs).contains(
        #[trigger] step_deps(xs[i])[d],
    ) by {
        assert(deps_contained(xs[i], keys_of(xs)));
        assert(keys_of(xs).contains(step_deps(xs[i])[d]));
    }
}

} // verus!
