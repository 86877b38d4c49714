//! Character-level text utilities: conversion between strings and character
//! vectors, and substring replacement with its algebraic laws.  Replacement is
//! what rewrites the self-invocation placeholder inside evaluator-supplied
//! commands during synthesis.

use vstd::prelude::*;

verus! {

/// The pattern `pat` occurs in `s` starting at index `i`.
pub open spec fn occurs_at(s: Seq<char>, pat: Seq<char>, i: int) -> bool {
    &&& 0 <= i
    &&& i + pat.len() <= s.len()
    &&& s.subrange(i, i + pat.len() as int) == pat
}

/// `s` with every occurrence of `pat` replaced by `rep`, scanning left to
/// right without overlapping rescans, as `str::replace` does.  An empty
/// pattern replaces nothing.
pub open spec fn replace_seq(s: Seq<char>, pat: Seq<char>, rep: Seq<char>) -> Seq<char>
    decreases s.len(),
{
    if pat.len() == 0 || s.len() < pat.len() {
        s
    } else if s.subrange(0, pat.len() as int) == pat {
        rep + replace_seq(s.skip(pat.len() as int), pat, rep)
    } else {
        seq![s[0]] + replace_seq(s.skip(1), pat, rep)
    }
}

/// Relies on `String::push`: appends exactly the one character.
#[verifier::external_body]
pub(crate) fn push_char(s: &mut String, c: char) -> (u: ())
    ensures
        final(s)@ == old(s)@ + seq![c],
{
    s.push(c);
}

/// The characters of `s`, in order, as a vector.
pub(crate) fn chars_vec(s: &str) -> (r: Vec<char>)
    ensures
        r@ == s@,
{
    let n: usize = s.unicode_len();
    let mut r: Vec<char> = Vec::new();
    let mut i: usize = 0;
    while i < n
        invariant
            n == s@.len(),
            i <= n,
            r@ == s@.subrange(0, i as int),
        decreases n - i,
    {
        let c = s.get_char(i);
        r.push(c);
        assert(r@ =~= s@.subrange(0, i + 1 as int));
        i = i + 1;
    }
    assert(r@ =~= s@);
    r
}

/// A string holding exactly the characters of `v`.
pub(crate) fn string_from_chars(v: &Vec<char>) -> (r: String)
    ensures
        r@ == v@,
{
    let mut r = String::new();
    let mut i: usize = 0;
    while i < v.len()
        invariant
            i <= v@.len(),
            r@ == v@.subrange(0, i as int),
        decreases v@.len() - i,
    {
        push_char(&mut r, v[i]);
        assert(r@ =~= v@.subrange(0, i + 1 as int));
        i = i + 1;
    }
    assert(r@ =~= v@);
    r
}

/// `pat` matches `s` at position `i`.
fn matches_at(s: &Vec<char>, pat: &Vec<char>, i: usize) -> (r: bool)
    requires
        i + pat@.len() <= s@.len(),
    ensures
        r == (s@.subrange(i as int, i + pat@.len() as int) == pat@),
{
    let slen = s.len();
    let mut j: usize = 0;
    while j < pat.len()
        invariant
            slen == s@.len(),
            i + pat@.len() <= s@.len(),
            j <= pat@.len(),
            forall|k: int| 0 <= k < j ==> s@[i + k] == pat@[k],
        decreases pat@.len() - j,
    {
        assert(i + j < slen);
        if s[i + j] != pat[j] {
            assert(s@.subrange(i as int, i + pat@.len() as int)[j as int] != pat@[j as int]);
            return false;
        }
        j = j + 1;
    }
    assert(s@.subrange(i as int, i + pat@.len() as int) =~= pat@);
    true
}

/// `s` with every occurrence of `pat` replaced by `rep`.
pub fn replace_all(s: &str, pat: &str, rep: &str) -> (r: String)
    ensures
        r@ == replace_seq(s@, pat@, rep@),
{
    let sv = chars_vec(s);
    let pv = chars_vec(pat);
    if pv.len() == 0 {
        return s.to_owned();
    }
    let mut out = String::new();
    let mut i: usize = 0;
    proof {
        assert(s@.skip(0) =~= s@);
        assert(Seq::<char>::empty() + replace_seq(s@, pat@, rep@) =~= replace_seq(
            s@,
            pat@,
            rep@,
        ));
    }
    while i < sv.len()
        invariant
            pv@ == pat@,
            sv@ == s@,
            pv@.len() > 0,
            i <= sv@.len(),
            replace_seq(s@, pat@, rep@) == out@ + replace_seq(s@.skip(i as int), pat@, rep@),
        decreases sv@.len() - i,
    {
        let ghost tail = s@.skip(i as int);
        let ghost out0 = out@;
        if sv.len() - i >= pv.len() && matches_at(&sv, &pv, i) {
            out.append(rep);
            proof {
                assert(tail.subrange(0, pat@.len() as int) =~= s@.subrange(
                    i as int,
                    i + pat@.len() as int,
                ));
                assert(tail.skip(pat@.len() as int) =~= s@.skip(i + pat@.len() as int));
                assert(replace_seq(tail, pat@, rep@) == rep@ + replace_seq(
                    s@.skip(i + pat@.len() as int),
                    pat@,
                    rep@,
                ));
                assert((out0 + rep@) + replace_seq(s@.skip(i + pat@.len() as int), pat@, rep@)
                    =~= out0 + (rep@ + replace_seq(s@.skip(i + pat@.len() as int), pat@, rep@)));
            }
            i = i + pv.len();
        } else {
            push_char(&mut out, sv[i]);
            proof {
                assert(tail[0] == s@[i as int]);
                assert(tail.skip(1) =~= s@.skip(i + 1));
                if tail.len() < pat@.len() {
                    assert(replace_seq(tail, pat@, rep@) == tail);
                    assert(replace_seq(s@.skip(i + 1), pat@, rep@) == tail.skip(1));
                    assert((out0 + seq![tail[0]]) + tail.skip(1) =~= out0 + tail);
                } else {
                    assert(tail.subrange(0, pat@.len() as int) =~= s@.subrange(
                        i as int,
                        i + pat@.len() as int,
                    ));
                    assert(tail.subrange(0, pat@.len() as int) != pat@);
                    assert(replace_seq(tail, pat@, rep@) == seq![tail[0]] + replace_seq(
                        s@.skip(i + 1),
                        pat@,
                        rep@,
                    ));
                    assert((out0 + seq![tail[0]]) + replace_seq(s@.skip(i + 1), pat@, rep@)
                        =~= out0 + (seq![tail[0]] + replace_seq(s@.skip(i + 1), pat@, rep@)));
                }
            }
            i = i + 1;
        }
    }
    proof {
        assert(s@.skip(i as int) =~= Seq::<char>::empty());
        assert(replace_seq(s@.skip(i as int), pat@, rep@) == s@.skip(i as int));
        assert(out@ + s@.skip(i as int) =~= out@);
    }
    out
}

/// Replacement leaves a pattern-free string unchanged.
pub proof fn lemma_replace_no_occurrence(s: Seq<char>, pat: Seq<char>, rep: Seq<char>)
    requires
        pat.len() > 0,
        forall|i: int| !occurs_at(s, pat, i),
    ensures
        replace_seq(s, pat, rep) == s,
    decreases s.len(),
{
    if s.len() < pat.len() {
    } else {
        assert(!occurs_at(s, pat, 0));
        assert(s.subrange(0, pat.len() as int) != pat);
        assert forall|i: int| !occurs_at(s.skip(1), pat, i) by {
            if occurs_at(s.skip(1), pat, i) {
                assert(s.subrange(i + 1, i + 1 + pat.len() as int) =~= s.skip(1).subrange(
                    i,
                    i + pat.len() as int,
                ));
                assert(occurs_at(s, pat, i + 1));
            }
        }
        lemma_replace_no_occurrence(s.skip(1), pat, rep);
        assert(seq![s[0]] + s.skip(1) =~= s);
    }
}

/// Replacement at the one marked occurrence: with no occurrence starting
/// inside the prefix `a`, replacing in `a + pat + b` rewrites that occurrence
/// and then continues in `b` alone.
pub proof fn lemma_replace_at_occurrence(
    a: Seq<char>,
    pat: Seq<char>,
    b: Seq<char>,
    rep: Seq<char>,
)
    requires
        pat.len() > 0,
        forall|i: int| 0 <= i < a.len() ==> !occurs_at(a + pat + b, pat, i),
    ensures
        replace_seq(a + pat + b, pat, rep) == a + rep + replace_seq(b, pat, rep),
    decreases a.len(),
{
    let s = a + pat + b;
    if a.len() == 0 {
        assert(s.subrange(0, pat.len() as int) =~= pat);
        assert(s.skip(pat.len() as int) =~= b);
        assert(rep + replace_seq(b, pat, rep) =~= a + rep + replace_seq(b, pat, rep));
    } else {
        assert(!occurs_at(s, pat, 0));
        assert(s.len() >= pat.len());
        assert(s.subrange(0, pat.len() as int) != pat);
        assert(replace_seq(s, pat, rep) == seq![s[0]] + replace_seq(s.skip(1), pat, rep));
        let a1 = a.skip(1);
        assert(s.skip(1) =~= a1 + pat + b);
        assert forall|i: int| 0 <= i < a1.len() implies !occurs_at(a1 + pat + b, pat, i) by {
            if occurs_at(a1 + pat + b, pat, i) {
                assert(s.subrange(i + 1, i + 1 + pat.len() as int) =~= (a1 + pat + b).subrange(
                    i,
                    i + pat.len() as int,
                ));
                assert(occurs_at(s, pat, i + 1));
            }
        }
        lemma_replace_at_occurrence(a1, pat, b, rep);
        assert(seq![s[0]] + (a1 + rep + replace_seq(b, pat, rep)) =~= a + rep + replace_seq(
            b,
            pat,
            rep,
        ));
    }
}

/// Substituting a placeholder that occurs exactly once replaces it verbatim
/// and alters no other text.
pub proof fn lemma_single_substitution(a: Seq<char>, pat: Seq<char>, b: Seq<char>, rep: Seq<char>)
    requires
        pat.len() > 0,
        forall|i: int| 0 <= i < a.len() ==> !occurs_at(a + pat + b, pat, i),
        forall|i: int| !occurs_at(b, pat, i),
    ensures
        replace_seq(a + pat + b, pat, rep) == a + rep + b,
    decreases a.len(),
{
    lemma_replace_at_occurrence(a, pat, b, rep);
    lemma_replace_no_occurrence(b, pat, rep);
}

} // verus!
