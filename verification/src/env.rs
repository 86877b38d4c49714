//! String key-value lists with last-write-wins insertion, used for a step's
//! environment and a trigger's metadata.  Keys stay unique and keep their
//! first insertion order, so the serialized object is a valid JSON object and
//! identical inputs serialize identically.

use vstd::prelude::*;

verus! {

/// The index of the first pair with key `k`, or a marker below zero.
pub open spec fn find_key(s: Seq<(Seq<char>, Seq<char>)>, k: Seq<char>) -> int
    decreases s.len(),
{
    if s.len() == 0 {
        -1
    } else if s[0].0 == k {
        0
    } else {
        let r = find_key(s.drop_first(), k);
        if r < 0 {
            -1
        } else {
            r + 1
        }
    }
}

/// Inserting `(k, v)`: replaces the first pair with key `k`, or appends.
pub open spec fn insert_pair(
    s: Seq<(Seq<char>, Seq<char>)>,
    k: Seq<char>,
    v: Seq<char>,
) -> Seq<(Seq<char>, Seq<char>)> {
    if find_key(s, k) < 0 {
        s.push((k, v))
    } else {
        s.update(find_key(s, k), (k, v))
    }
}

/// Inserting into an optional list: an absent list counts as empty.
pub open spec fn insert_pair_opt(
    o: Option<Seq<(Seq<char>, Seq<char>)>>,
    k: Seq<char>,
    v: Seq<char>,
) -> Seq<(Seq<char>, Seq<char>)> {
    match o {
        Option::None => seq![(k, v)],
        Option::Some(s) => insert_pair(s, k, v),
    }
}

proof fn lemma_find_key_none(s: Seq<(Seq<char>, Seq<char>)>, k: Seq<char>)
    requires
        forall|j: int| 0 <= j < s.len() ==> (#[trigger] s[j]).0 != k,
    ensures
        find_key(s, k) == -1,
    decreases s.len(),
{
    if s.len() > 0 {
        lemma_find_key_none(s.drop_first(), k);
    }
}

proof fn lemma_find_key_at(s: Seq<(Seq<char>, Seq<char>)>, k: Seq<char>, i: int)
    requires
        0 <= i < s.len(),
        s[i].0 == k,
        forall|j: int| 0 <= j < i ==> (#[trigger] s[j]).0 != k,
    ensures
        find_key(s, k) == i,
    decreases s.len(),
{
    if i > 0 {
        lemma_find_key_at(s.drop_first(), k, i - 1);
    }
}

/// A copy of a string list, element for element.
pub(crate) fn clone_string_vec(v: &Vec<String>) -> (r: Vec<String>)
    ensures
        r.deep_view() == v.deep_view(),
{
    let mut r: Vec<String> = Vec::new();
    let mut i: usize = 0;
    while i < v.len()
        invariant
            i <= v@.len(),
            v.deep_view().len() == v@.len(),
            r.deep_view().len() == i,
            forall|j: int| 0 <= j < i ==> r.deep_view()[j] == v.deep_view()[j],
        decreases v@.len() - i,
    {
        r.push(v[i].clone());
        proof {
            assert(v[i as int].deep_view() == v.deep_view()[i as int]);
        }
        i = i + 1;
    }
    assert(r.deep_view() =~= v.deep_view());
    r
}

/// A copy of an optional string.
pub(crate) fn clone_opt_string(o: &Option<String>) -> (r: Option<String>)
    ensures
        r.deep_view() == o.deep_view(),
{
    match o {
        Some(s) => Some(s.clone()),
        None => None,
    }
}

/// A copy of an optional string list.
pub(crate) fn clone_opt_string_vec(o: &Option<Vec<String>>) -> (r: Option<Vec<String>>)
    ensures
        r.deep_view() == o.deep_view(),
{
    match o {
        Some(v) => Some(clone_string_vec(v)),
        None => None,
    }
}

/// A copy of a key-value list, pair for pair.
pub(crate) fn clone_kv_vec(v: &Vec<(String, String)>) -> (r: Vec<(String, String)>)
    ensures
        r.deep_view() == v.deep_view(),
{
    let mut r: Vec<(String, String)> = Vec::new();
    let mut i: usize = 0;
    while i < v.len()
        invariant
            i <= v@.len(),
            v.deep_view().len() == v@.len(),
            r.deep_view().len() == i,
            forall|j: int| 0 <= j < i ==> r.deep_view()[j] == v.deep_view()[j],
        decreases v@.len() - i,
    {
        r.push((v[i].0.clone(), v[i].1.clone()));
        proof {
            assert(v[i as int].deep_view() == v.deep_view()[i as int]);
        }
        i = i + 1;
    }
    assert(r.deep_view() =~= v.deep_view());
    r
}

/// A copy of an optional key-value list.
pub(crate) fn clone_opt_kv_vec(o: &Option<Vec<(String, String)>>) -> (r: Option<
    Vec<(String, String)>,
>)
    ensures
        r.deep_view() == o.deep_view(),
{
    match o {
        Some(v) => Some(clone_kv_vec(v)),
        None => None,
    }
}

/// Inserts `(key, val)` into the list, replacing the value of an existing
/// key and appending a new one.
pub(crate) fn kv_insert(ev: &mut Vec<(String, String)>, key: String, val: String)
    ensures
        final(ev).deep_view() == insert_pair(old(ev).deep_view(), key@, val@),
{
    let ghost dv = ev.deep_view();
    let n = ev.len();
    let mut i: usize = 0;
    let mut found: Option<usize> = None;
    while i < n && found.is_none()
        invariant
            n == ev@.len(),
            dv == ev.deep_view(),
            dv.len() == ev@.len(),
            i <= n,
            match found {
                Some(ix) => {
                    &&& ix < n
                    &&& dv[ix as int].0 == key@
                    &&& forall|j: int| 0 <= j < ix ==> (#[trigger] dv[j]).0 != key@
                },
                None => forall|j: int| 0 <= j < i ==> (#[trigger] dv[j]).0 != key@,
            },
        decreases n - i + (if found.is_none() {
            1int
        } else {
            0int
        }),
    {
        if ev[i].0 == key {
            proof {
                assert(ev[i as int].deep_view() == dv[i as int]);
            }
            found = Some(i);
        } else {
            proof {
                assert(ev[i as int].deep_view() == dv[i as int]);
            }
            i = i + 1;
        }
    }
    match found {
        Some(ix) => {
            proof {
                lemma_find_key_at(dv, key@, ix as int);
            }
            ev.set(ix, (key, val));
            assert(ev.deep_view() =~= dv.update(ix as int, (key@, val@)));
        },
        None => {
            proof {
                lemma_find_key_none(dv, key@);
            }
            ev.push((key, val));
            assert(ev.deep_view() =~= dv.push((key@, val@)));
        },
    }
}

} // verus!
