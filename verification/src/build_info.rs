//! Run-state snapshot and evaluator output.
//!
//! The snapshot records the run's identity and is committed into the checkout
//! for propagation; its encoding is canonical JSON — keys in sorted order, no
//! whitespace, absent optional fields omitted — so that identical inputs
//! always produce identical bytes and therefore an identical commit.

use vstd::prelude::*;

use crate::flags::BuildkiteArgs;
use crate::json::{
    escape_string, expect, lemma_expect_prefix, lemma_parse_escape, match_lit, parse_jstring,
    parse_string_body, push_escaped,
};
use crate::text::chars_vec;

verus! {

/// The kind of unit the evaluator found to build.
#[derive(Clone, Copy, PartialEq, Eq, Structural, Debug)]
pub enum BuildTargetType {
    Package,
    DevShell,
    NixOSConfiguration,
    NixDarwinConfiguration,
    HomeManagerConfiguration,
}

/// One buildable unit, as the evaluator reported it.
pub struct FoundDerivationBuild {
    pub name: String,
    pub build_type: BuildTargetType,
    pub path: String,
    pub tag: String,
}

/// The badge word shown for a target kind.
pub open spec fn emoji_str(t: BuildTargetType) -> Seq<char> {
    match t {
        BuildTargetType::Package => "package"@,
        BuildTargetType::NixDarwinConfiguration => "mac"@,
        BuildTargetType::HomeManagerConfiguration => "house_with_garden"@,
        BuildTargetType::NixOSConfiguration => "nix"@,
        BuildTargetType::DevShell => "terminal"@,
    }
}

/// The human-readable label of a build step for a target.
pub open spec fn label_spec(name: Seq<char>, t: BuildTargetType) -> Seq<char> {
    ":hammer_and_wrench: :"@ + emoji_str(t) + ": "@ + name
}

impl FoundDerivationBuild {
    /// The step label for this target: a tool badge, a kind badge, and the
    /// target's name.
    pub fn label(&self) -> (r: String)
        ensures
            r@ == label_spec(self.name@, self.build_type),
    {
        let mut out = String::new();
        out.append(":hammer_and_wrench: :");
        match self.build_type {
            BuildTargetType::Package => out.append("package"),
            BuildTargetType::NixDarwinConfiguration => out.append("mac"),
            BuildTargetType::HomeManagerConfiguration => out.append("house_with_garden"),
            BuildTargetType::NixOSConfiguration => out.append("nix"),
            BuildTargetType::DevShell => out.append("terminal"),
        }
        out.append(": ");
        out.append(self.name.as_str());
        proof {
            assert(out@ =~= label_spec(self.name@, self.build_type));
        }
        out
    }
}

/// Mathematical image of [`FoundDerivationBuild`].
pub struct FoundDerivationBuildV {
    pub name: Seq<char>,
    pub build_type: BuildTargetType,
    pub path: Seq<char>,
    pub tag: Seq<char>,
}

impl View for FoundDerivationBuild {
    type V = FoundDerivationBuildV;

    open spec fn view(&self) -> FoundDerivationBuildV {
        FoundDerivationBuildV {
            name: self.name@,
            build_type: self.build_type,
            path: self.path@,
            tag: self.tag@,
        }
    }
}

impl DeepView for FoundDerivationBuild {
    type V = FoundDerivationBuildV;

    open spec fn deep_view(&self) -> FoundDerivationBuildV {
        self.view()
    }
}

/// What the evaluator reported: the targets to build, in the order given,
/// and any extra steps to append to the pipeline.
pub struct BuildEvaluation {
    pub builds: Vec<(String, FoundDerivationBuild)>,
    pub steps: Vec<crate::buildkite::Step>,
}

/// Why an evaluation failed: the evaluator process could not run, or its
/// output was not the expected JSON.  Each variant carries the underlying
/// error rendered as text.
#[derive(Debug)]
pub enum EvaluationError {
    LaunchingNix(String),
    ParsingJSON(String),
}

/// Why writing the snapshot failed, each variant carrying the underlying
/// error rendered as text.
#[derive(Debug)]
pub enum CIRunStateWriteToFileError {
    Creating(String),
    Writing(String),
    Converting(String),
}

/// Pipeline identity inside the snapshot.
pub struct PipelineInfo {
    pub id: String,
    pub slug: String,
}

/// Mathematical image of [`PipelineInfo`].
pub struct PipelineInfoV {
    pub id: Seq<char>,
    pub slug: Seq<char>,
}

impl View for PipelineInfo {
    type V = PipelineInfoV;

    open spec fn view(&self) -> PipelineInfoV {
        PipelineInfoV { id: self.id@, slug: self.slug@ }
    }
}

/// The run-state snapshot: the metadata every downstream job must observe.
pub struct CIRunState {
    pub commit: String,
    pub branch: Option<String>,
    pub tag: Option<String>,
    pub pipeline: PipelineInfo,
    pub repo: String,
}

/// Mathematical image of [`CIRunState`].
pub struct CIRunStateV {
    pub commit: Seq<char>,
    pub branch: Option<Seq<char>>,
    pub tag: Option<Seq<char>>,
    pub pipeline: PipelineInfoV,
    pub repo: Seq<char>,
}

impl View for CIRunState {
    type V = CIRunStateV;

    open spec fn view(&self) -> CIRunStateV {
        CIRunStateV {
            commit: self.commit@,
            branch: self.branch.deep_view(),
            tag: self.tag.deep_view(),
            pipeline: self.pipeline@,
            repo: self.repo@,
        }
    }
}

/// The `branch` field with its trailing comma, or nothing.
pub open spec fn branch_part(b: Option<Seq<char>>) -> Seq<char> {
    match b {
        Option::None => Seq::empty(),
        Option::Some(x) => "\"branch\":\""@ + escape_string(x) + "\","@,
    }
}

/// The `tag` field with its leading comma, or nothing.
pub open spec fn tag_part(t: Option<Seq<char>>) -> Seq<char> {
    match t {
        Option::None => Seq::empty(),
        Option::Some(x) => ",\"tag\":\""@ + escape_string(x) + "\""@,
    }
}

/// The canonical encoding of a snapshot: one JSON object, keys in sorted
/// order, no whitespace, absent optional fields omitted.
pub open spec fn encode_snapshot(v: CIRunStateV) -> Seq<char> {
    "{"@ + branch_part(v.branch) + "\"commit\":\""@ + escape_string(v.commit) + "\""@
        + ",\"pipeline\":{\"id\":\""@ + escape_string(v.pipeline.id) + "\""@ + ",\"slug\":\""@
        + escape_string(v.pipeline.slug) + "\""@ + "},\"repository\":\""@ + escape_string(v.repo)
        + "\""@ + tag_part(v.tag) + "}"@
}

/// Reads a key literal (including the value's opening quote) and the string
/// value after it.
pub open spec fn parse_key_string(s: Seq<char>, key: Seq<char>) -> Option<(Seq<char>, Seq<char>)> {
    match expect(s, key) {
        Option::None => Option::None,
        Option::Some(s1) => parse_string_body(s1, Seq::empty()),
    }
}

/// Reads the optional `branch` field with its trailing comma.
pub open spec fn parse_branch(s: Seq<char>) -> Option<(Option<Seq<char>>, Seq<char>)> {
    if expect(s, "\"branch\":\""@) is Some {
        match parse_key_string(s, "\"branch\":\""@) {
            Option::None => Option::None,
            Option::Some(vr) => match expect(vr.1, ","@) {
                Option::None => Option::None,
                Option::Some(r2) => Option::Some((Option::Some(vr.0), r2)),
            },
        }
    } else {
        Option::Some((Option::None, s))
    }
}

/// Reads the optional `tag` field with its leading comma.
pub open spec fn parse_tag(s: Seq<char>) -> Option<(Option<Seq<char>>, Seq<char>)> {
    if expect(s, ",\"tag\":\""@) is Some {
        match parse_key_string(s, ",\"tag\":\""@) {
            Option::None => Option::None,
            Option::Some(vr) => Option::Some((Option::Some(vr.0), vr.1)),
        }
    } else {
        Option::Some((Option::None, s))
    }
}

/// Reads a canonically encoded snapshot back.
pub open spec fn decode_snapshot(s: Seq<char>) -> Option<CIRunStateV> {
    match expect(s, "{"@) {
        Option::None => Option::None,
        Option::Some(s1) => match parse_branch(s1) {
            Option::None => Option::None,
            Option::Some(br) => match parse_key_string(br.1, "\"commit\":\""@) {
                Option::None => Option::None,
                Option::Some(cr) => match parse_key_string(cr.1, ",\"pipeline\":{\"id\":\""@) {
                    Option::None => Option::None,
                    Option::Some(ir) => match parse_key_string(ir.1, ",\"slug\":\""@) {
                        Option::None => Option::None,
                        Option::Some(sr) => match parse_key_string(sr.1, "},\"repository\":\""@) {
                            Option::None => Option::None,
                            Option::Some(rr) => match parse_tag(rr.1) {
                                Option::None => Option::None,
                                Option::Some(tr) => if tr.1 == "}"@ {
                                    Option::Some(
                                        CIRunStateV {
                                            commit: cr.0,
                                            branch: br.0,
                                            tag: tr.0,
                                            pipeline: PipelineInfoV { id: ir.0, slug: sr.0 },
                                            repo: rr.0,
                                        },
                                    )
                                } else {
                                    Option::None
                                },
                            },
                        },
                    },
                },
            },
        },
    }
}

proof fn lemma_parse_key_field(key: Seq<char>, v: Seq<char>, rest: Seq<char>)
    ensures
        parse_key_string(key + escape_string(v) + "\""@ + rest, key) == Some((v, rest)),
{
    reveal_strlit("\"");
    let body = escape_string(v) + "\""@ + rest;
    let s = key + escape_string(v) + "\""@ + rest;
    assert(s =~= key + body);
    lemma_expect_prefix(key, body);
    assert(expect(s, key) == Some(body));
    assert("\""@ =~= seq!['"']);
    assert(body =~= escape_string(v) + seq!['"'] + rest);
    lemma_parse_escape(v, rest, Seq::empty());
    assert(Seq::<char>::empty() + v =~= v);
}

/// Encoding is canonical: the same snapshot always encodes to the same
/// bytes, so repeated captures of an identical run state are byte-identical.
pub proof fn lemma_encode_deterministic(v: CIRunStateV, a: Seq<char>, b: Seq<char>)
    requires
        a == encode_snapshot(v),
        b == encode_snapshot(v),
    ensures
        a == b,
{
}

/// Decoding inverts the canonical encoding: every snapshot round-trips.
#[verifier::rlimit(100)]
pub proof fn lemma_snapshot_round_trip(v: CIRunStateV)
    ensures
        decode_snapshot(encode_snapshot(v)) == Some(v),
{
    reveal_strlit("{");
    reveal_strlit("}");
    reveal_strlit("\"");
    reveal_strlit(",");
    reveal_strlit("\",");
    reveal_strlit("\"branch\":\"");
    reveal_strlit("\"commit\":\"");
    reveal_strlit(",\"pipeline\":{\"id\":\"");
    reveal_strlit(",\"slug\":\"");
    reveal_strlit("},\"repository\":\"");
    reveal_strlit(",\"tag\":\"");
    let e = encode_snapshot(v);
    let in_tag = tag_part(v.tag) + "}"@;
    let in_repo = "},\"repository\":\""@ + escape_string(v.repo) + "\""@ + in_tag;
    let in_slug = ",\"slug\":\""@ + escape_string(v.pipeline.slug) + "\""@ + in_repo;
    let in_pid = ",\"pipeline\":{\"id\":\""@ + escape_string(v.pipeline.id) + "\""@ + in_slug;
    let in_commit = "\"commit\":\""@ + escape_string(v.commit) + "\""@ + in_pid;
    let s1 = branch_part(v.branch) + in_commit;
    assert(e =~= "{"@ + s1);
    lemma_expect_prefix("{"@, s1);
    assert(expect(e, "{"@) == Some(s1));
    // The optional branch field.
    match v.branch {
        Option::None => {
            assert(s1 =~= in_commit);
            assert(s1.len() >= 11);
            assert(s1.take(10) =~= "\"commit\":\""@);
            assert("\"commit\":\""@[1] == 'c' && "\"branch\":\""@[1] == 'b');
            assert(expect(s1, "\"branch\":\""@) is None);
            assert(parse_branch(s1) == Some((Option::<Seq<char>>::None, s1)));
        },
        Option::Some(b) => {
            assert(s1 =~= "\"branch\":\""@ + (escape_string(b) + "\","@ + in_commit));
            lemma_expect_prefix("\"branch\":\""@, escape_string(b) + "\","@ + in_commit);
            assert(expect(s1, "\"branch\":\""@) is Some);
            assert(escape_string(b) + "\","@ + in_commit =~= escape_string(b) + seq!['"'] + (
            seq![','] + in_commit));
            lemma_parse_escape(b, seq![','] + in_commit, Seq::empty());
            assert(Seq::<char>::empty() + b =~= b);
            assert(parse_key_string(s1, "\"branch\":\""@) == Some((b, seq![','] + in_commit)));
            assert(","@ =~= seq![',']);
            lemma_expect_prefix(seq![','], in_commit);
            assert(expect(seq![','] + in_commit, ","@) == Some(in_commit));
            assert(parse_branch(s1) == Some((Option::Some(b), in_commit)));
        },
    }
    // The four required string fields.
    lemma_parse_key_field("\"commit\":\""@, v.commit, in_pid);
    assert(in_commit =~= "\"commit\":\""@ + escape_string(v.commit) + "\""@ + in_pid);
    lemma_parse_key_field(",\"pipeline\":{\"id\":\""@, v.pipeline.id, in_slug);
    assert(in_pid =~= ",\"pipeline\":{\"id\":\""@ + escape_string(v.pipeline.id) + "\""@
        + in_slug);
    lemma_parse_key_field(",\"slug\":\""@, v.pipeline.slug, in_repo);
    assert(in_slug =~= ",\"slug\":\""@ + escape_string(v.pipeline.slug) + "\""@ + in_repo);
    lemma_parse_key_field("},\"repository\":\""@, v.repo, in_tag);
    assert(in_repo =~= "},\"repository\":\""@ + escape_string(v.repo) + "\""@ + in_tag);
    // The optional tag field and the closing brace.
    match v.tag {
        Option::None => {
            assert(in_tag =~= "}"@);
            assert(in_tag.len() == 1);
            assert((",\"tag\":\""@).len() == 8);
            assert(expect(in_tag, ",\"tag\":\""@) is None);
            assert(parse_tag(in_tag) == Some((Option::<Seq<char>>::None, in_tag)));
        },
        Option::Some(t) => {
            assert(in_tag =~= ",\"tag\":\""@ + (escape_string(t) + "\""@ + "}"@));
            lemma_expect_prefix(",\"tag\":\""@, escape_string(t) + "\""@ + "}"@);
            assert(expect(in_tag, ",\"tag\":\""@) is Some);
            lemma_parse_key_field(",\"tag\":\""@, t, "}"@);
            assert(in_tag =~= ",\"tag\":\""@ + escape_string(t) + "\""@ + "}"@);
            assert(parse_tag(in_tag) == Some((Option::Some(t), "}"@)));
        },
    }
    assert(decode_snapshot(e) == Some(v));
}

/// The fixed path of the snapshot file under the checkout root.
pub fn state_file_path(checkout: &str) -> (r: String)
    ensures
        r@ == checkout@ + "/build-info.json"@,
{
    let mut r = checkout.to_owned();
    r.append("/build-info.json");
    r
}

impl CIRunState {
    /// The snapshot for a run's identity.
    pub fn from_args(args: BuildkiteArgs) -> (r: Self)
        ensures
            r@.commit == args.commit@,
            r@.branch == args.branch.deep_view(),
            r@.tag == args.tag.deep_view(),
            r@.pipeline.id == args.pipeline_id@,
            r@.pipeline.slug == args.pipeline_slug@,
            r@.repo == args.repository@,
    {
        CIRunState {
            commit: args.commit,
            branch: args.branch,
            tag: args.tag,
            pipeline: PipelineInfo { id: args.pipeline_id, slug: args.pipeline_slug },
            repo: args.repository,
        }
    }

    /// The canonical bytes of this snapshot.
    pub fn encode_canonical(&self) -> (r: String)
        ensures
            r@ == encode_snapshot(self@),
    {
        let mut out = String::new();
        out.append("{");
        match &self.branch {
            Some(b) => {
                out.append("\"branch\":\"");
                push_escaped(&mut out, b.as_str());
                out.append("\",");
                assert(out@ =~= "{"@ + branch_part(self@.branch));
            },
            None => {
                assert(out@ =~= "{"@ + branch_part(self@.branch));
            },
        }
        let ghost p0 = out@;
        out.append("\"commit\":\"");
        push_escaped(&mut out, self.commit.as_str());
        out.append("\"");
        out.append(",\"pipeline\":{\"id\":\"");
        push_escaped(&mut out, self.pipeline.id.as_str());
        out.append("\"");
        out.append(",\"slug\":\"");
        push_escaped(&mut out, self.pipeline.slug.as_str());
        out.append("\"");
        out.append("},\"repository\":\"");
        push_escaped(&mut out, self.repo.as_str());
        out.append("\"");
        let ghost p1 = out@;
        match &self.tag {
            Some(t) => {
                out.append(",\"tag\":\"");
                push_escaped(&mut out, t.as_str());
                out.append("\"");
                assert(out@ =~= p1 + tag_part(self@.tag));
            },
            None => {
                assert(out@ =~= p1 + tag_part(self@.tag));
            },
        }
        out.append("}");
        proof {
            assert(out@ =~= encode_snapshot(self@));
        }
        out
    }

    /// Reads a canonically encoded snapshot back; `None` when the text is not
    /// such an encoding.
    pub fn decode_canonical(s: &str) -> (r: Option<CIRunState>)
        ensures
            match r {
                Some(st) => decode_snapshot(s@) == Some(st@),
                None => decode_snapshot(s@) is None,
            },
    {
        let sv = chars_vec(s);
        proof {
            assert(sv@.skip(0) =~= s@);
        }
        let i0 = match match_lit(&sv, 0, "{") {
            Some(j) => j,
            None => {
                return None;
            },
        };
        let (branch, i1) = match match_lit(&sv, i0, "\"branch\":\"") {
            Some(j) => match parse_jstring(&sv, j) {
                Some(vj) => match match_lit(&sv, vj.1, ",") {
                    Some(j3) => (Some(vj.0), j3),
                    None => {
                        return None;
                    },
                },
                None => {
                    return None;
                },
            },
            None => (None, i0),
        };
        assert(parse_branch(sv@.skip(i0 as int)) == Some(
            (branch.deep_view(), sv@.skip(i1 as int)),
        ));
        let c = match match_lit(&sv, i1, "\"commit\":\"") {
            Some(j) => match parse_jstring(&sv, j) {
                Some(vj) => vj,
                None => {
                    return None;
                },
            },
            None => {
                return None;
            },
        };
        let pid = match match_lit(&sv, c.1, ",\"pipeline\":{\"id\":\"") {
            Some(j) => match parse_jstring(&sv, j) {
                Some(vj) => vj,
                None => {
                    return None;
                },
            },
            None => {
                return None;
            },
        };
        let slug = match match_lit(&sv, pid.1, ",\"slug\":\"") {
            Some(j) => match parse_jstring(&sv, j) {
                Some(vj) => vj,
                None => {
                    return None;
                },
            },
            None => {
                return None;
            },
        };
        let repo = match match_lit(&sv, slug.1, "},\"repository\":\"") {
            Some(j) => match parse_jstring(&sv, j) {
                Some(vj) => vj,
                None => {
                    return None;
                },
            },
            None => {
                return None;
            },
        };
        let (tag, i6) = match match_lit(&sv, repo.1, ",\"tag\":\"") {
            Some(j) => match parse_jstring(&sv, j) {
                Some(vj) => (Some(vj.0), vj.1),
                None => {
                    return None;
                },
            },
            None => (None, repo.1),
        };
        assert(parse_tag(sv@.skip(repo.1 as int)) == Some((tag.deep_view(), sv@.skip(i6 as int))));
        let j7 = match match_lit(&sv, i6, "}") {
            Some(j) => j,
            None => {
                proof {
                    if sv@.skip(i6 as int) == "}"@ {
                        assert("}"@ =~= "}"@ + Seq::<char>::empty());
                        lemma_expect_prefix("}"@, Seq::empty());
                    }
                }
                return None;
            },
        };
        if j7 != sv.len() {
            proof {
                reveal_strlit("}");
                assert(sv@.skip(j7 as int).len() > 0);
                assert(sv@.skip(i6 as int).len() > 1);
            }
            return None;
        }
        proof {
            reveal_strlit("}");
            assert(sv@.skip(j7 as int) =~= Seq::<char>::empty());
            assert(sv@.skip(i6 as int) =~= sv@.skip(i6 as int).take(1) + sv@.skip(i6 as int).skip(
                1,
            ));
            assert(sv@.skip(i6 as int) =~= "}"@);
        }
        let st = CIRunState {
            commit: c.0,
            branch,
            tag,
            pipeline: PipelineInfo { id: pid.0, slug: slug.0 },
            repo: repo.0,
        };
        assert(decode_snapshot(s@) == Some(st@));
        Some(st)
    }
}

impl PartialEq for CIRunState {
    /// Snapshots are equal when every recorded field is.
    fn eq(&self, o: &CIRunState) -> (r: bool) {
        let branch_eq = match (&self.branch, &o.branch) {
            (Some(a), Some(b)) => *a == *b,
            (None, None) => true,
            _ => false,
        };
        let tag_eq = match (&self.tag, &o.tag) {
            (Some(a), Some(b)) => *a == *b,
            (None, None) => true,
            _ => false,
        };
        branch_eq && tag_eq && self.commit == o.commit && self.pipeline.id == o.pipeline.id
            && self.pipeline.slug == o.pipeline.slug && self.repo == o.repo
    }
}

impl vstd::std_specs::cmp::PartialEqSpecImpl for CIRunState {
    open spec fn obeys_eq_spec() -> bool {
        true
    }

    open spec fn eq_spec(&self, o: &CIRunState) -> bool {
        self@ == o@
    }
}

} // verus!
