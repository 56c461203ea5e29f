//! A one-level structural diff between two JSON values.
use crate::json::{
    copy_json, entries_view, find_key, get_entry, json_eq, lemma_entries_view, push_entry, Json,
    JsonV,
};
use vstd::prelude::*;

verus! {

pub type Entries = Seq<(Seq<char>, JsonV)>;

/// The entries of `src` whose key `other` lacks, in order.
pub open spec fn keys_missing(src: Entries, other: Entries) -> Entries
    decreases src.len(),
{
    if src.len() == 0 {
        Seq::empty()
    } else {
        let r = keys_missing(src.drop_last(), other);
        if find_key(other, src.last().0) is None {
            r.push(src.last())
        } else {
            r
        }
    }
}

pub open spec fn from_to(x: JsonV, y: JsonV) -> JsonV {
    JsonV::Obj(seq![("from"@, x), ("to"@, y)])
}

/// For each entry of `a` whose key `b` holds with another value, that key with
/// `{from, to}`.
pub open spec fn changed_entries(a: Entries, b: Entries) -> Entries
    decreases a.len(),
{
    if a.len() == 0 {
        Seq::empty()
    } else {
        let r = changed_entries(a.drop_last(), b);
        let k = a.last().0;
        let v1 = a.last().1;
        match find_key(b, k) {
            Some(v2) => if v1 != v2 {
                r.push((k, from_to(v1, v2)))
            } else {
                r
            },
            None => r,
        }
    }
}

/// The diff of two values: for two objects the entries added, removed and changed;
/// for anything else a single `changed` pair, or nothing where the two are equal.
pub open spec fn diff_spec(a: JsonV, b: JsonV) -> JsonV {
    match (a, b) {
        (JsonV::Obj(x), JsonV::Obj(y)) => JsonV::Obj(
            seq![
                ("added"@, JsonV::Obj(keys_missing(y, x))),
                ("removed"@, JsonV::Obj(keys_missing(x, y))),
                ("changed"@, JsonV::Obj(changed_entries(x, y))),
            ],
        ),
        _ => if a != b {
            JsonV::Obj(seq![("changed"@, from_to(a, b))])
        } else {
            JsonV::Obj(Seq::empty())
        },
    }
}

fn pair_obj(x: Json, y: Json) -> (r: Json)
    ensures
        r@ == from_to(x@, y@),
{
    let mut e: Vec<(String, Json)> = Vec::new();
    proof {
        lemma_entries_view(e, 0);
    }
    push_entry(&mut e, String::from_str("from"), x);
    push_entry(&mut e, String::from_str("to"), y);
    let r = Json::Obj(e);
    assert(r@ == JsonV::Obj(entries_view(e)));
    assert(entries_view(e) =~= seq![("from"@, x@), ("to"@, y@)]);
    r
}

fn missing_from(src: &Vec<(String, Json)>, other: &Vec<(String, Json)>) -> (r: Vec<(String, Json)>)
    ensures
        entries_view(r) == keys_missing(entries_view(*src), entries_view(*other)),
{
    proof {
        lemma_entries_view(*src, src.len() as nat);
    }
    let ghost sv = entries_view(*src);
    let mut out: Vec<(String, Json)> = Vec::new();
    proof {
        lemma_entries_view(out, 0);
        assert(entries_view(out) =~= keys_missing(sv.take(0), entries_view(*other)));
    }
    let mut i: usize = 0;
    while i < src.len()
        invariant
            sv == entries_view(*src),
            sv.len() == src.len(),
            forall|j: int| 0 <= j < src.len() ==> #[trigger] sv[j] == (src[j].0@, src[j].1@),
            i <= src.len(),
            entries_view(out) == keys_missing(sv.take(i as int), entries_view(*other)),
        decreases src.len() - i,
    {
        assert(sv.take(i + 1).drop_last() =~= sv.take(i as int));
        assert(sv.take(i + 1).last() == sv[i as int]);
        if get_entry(other, src[i].0.as_str()).is_none() {
            push_entry(&mut out, src[i].0.clone(), copy_json(&src[i].1));
        }
        i += 1;
    }
    assert(sv.take(src.len() as int) =~= sv);
    out
}

fn changed_between(a: &Vec<(String, Json)>, b: &Vec<(String, Json)>) -> (r: Vec<(String, Json)>)
    ensures
        entries_view(r) == changed_entries(entries_view(*a), entries_view(*b)),
{
    proof {
        lemma_entries_view(*a, a.len() as nat);
    }
    let ghost av = entries_view(*a);
    let mut out: Vec<(String, Json)> = Vec::new();
    proof {
        lemma_entries_view(out, 0);
        assert(entries_view(out) =~= changed_entries(av.take(0), entries_view(*b)));
    }
    let mut i: usize = 0;
    while i < a.len()
        invariant
            av == entries_view(*a),
            av.len() == a.len(),
            forall|j: int| 0 <= j < a.len() ==> #[trigger] av[j] == (a[j].0@, a[j].1@),
            i <= a.len(),
            entries_view(out) == changed_entries(av.take(i as int), entries_view(*b)),
        decreases a.len() - i,
    {
        assert(av.take(i + 1).drop_last() =~= av.take(i as int));
        assert(av.take(i + 1).last() == av[i as int]);
        match get_entry(b, a[i].0.as_str()) {
            Some(v2) => {
                if !json_eq(&a[i].1, v2) {
                    let p = pair_obj(copy_json(&a[i].1), copy_json(v2));
                    push_entry(&mut out, a[i].0.clone(), p);
                }
            },
            None => {},
        }
        i += 1;
    }
    assert(av.take(a.len() as int) =~= av);
    out
}

/// Diff of `current` against `proposed`.
pub fn diff_states(current: &Json, proposed: &Json) -> (r: Json)
    ensures
        r@ == diff_spec(current@, proposed@),
{
    match (current, proposed) {
        (Json::Obj(a), Json::Obj(b)) => {
            let added = missing_from(b, a);
            let removed = missing_from(a, b);
            let changed = changed_between(a, b);
            let mut e: Vec<(String, Json)> = Vec::new();
            proof {
                lemma_entries_view(e, 0);
            }
            push_entry(&mut e, String::from_str("added"), Json::Obj(added));
            push_entry(&mut e, String::from_str("removed"), Json::Obj(removed));
            push_entry(&mut e, String::from_str("changed"), Json::Obj(changed));
            let r = Json::Obj(e);
            assert(entries_view(e) =~= seq![
                ("added"@, JsonV::Obj(keys_missing(entries_view(*b), entries_view(*a)))),
                ("removed"@, JsonV::Obj(keys_missing(entries_view(*a), entries_view(*b)))),
                ("changed"@, JsonV::Obj(changed_entries(entries_view(*a), entries_view(*b)))),
            ]);
            r
        },
        _ => {
            if !json_eq(current, proposed) {
                let mut e: Vec<(String, Json)> = Vec::new();
                proof {
                    lemma_entries_view(e, 0);
                }
                let p = pair_obj(copy_json(current), copy_json(proposed));
                push_entry(&mut e, String::from_str("changed"), p);
                assert(entries_view(e) =~= seq![("changed"@, from_to(current@, proposed@))]);
                Json::Obj(e)
            } else {
                let e: Vec<(String, Json)> = Vec::new();
                proof {
                    lemma_entries_view(e, 0);
                }
                assert(entries_view(e) =~= Seq::<(Seq<char>, JsonV)>::empty());
                Json::Obj(e)
            }
        },
    }
}

/// Keys of an object's entries are pairwise distinct, as in any parsed JSON object.
pub open spec fn unique_keys(e: Entries) -> bool {
    forall|i: int, j: int| 0 <= i < j < e.len() ==> (#[trigger] e[i]).0 != (#[trigger] e[j]).0
}

pub open spec fn key_set(e: Entries) -> Set<Seq<char>> {
    Set::new(|k: Seq<char>| exists|i: int| 0 <= i < e.len() && (#[trigger] e[i]).0 == k)
}

/// The three sections of an object diff, empty.
pub open spec fn empty_object_diff() -> JsonV {
    JsonV::Obj(
        seq![
            ("added"@, JsonV::Obj(Seq::empty())),
            ("removed"@, JsonV::Obj(Seq::empty())),
            ("changed"@, JsonV::Obj(Seq::empty())),
        ],
    )
}

proof fn lemma_find_key_present(s: Entries, i: int)
    requires
        0 <= i < s.len(),
    ensures
        find_key(s, s[i].0) is Some,
        unique_keys(s) ==> find_key(s, s[i].0) == Some(s[i].1),
    decreases s.len(),
{
    if i > 0 && s[0].0 != s[i].0 {
        assert(s.drop_first()[i - 1] == s[i]);
        if unique_keys(s) {
            assert(unique_keys(s.drop_first())) by {
                assert forall|a: int, b: int| 0 <= a < b < s.drop_first().len() implies
                    (#[trigger] s.drop_first()[a]).0 != (#[trigger] s.drop_first()[b]).0 by {
                    assert(s.drop_first()[a] == s[a + 1]);
                    assert(s.drop_first()[b] == s[b + 1]);
                }
            }
        }
        lemma_find_key_present(s.drop_first(), i - 1);
    } else if i > 0 {
        assert(unique_keys(s) ==> s[0].0 != s[i].0);
    }
}

proof fn lemma_find_key_some(s: Entries, k: Seq<char>)
    requires
        find_key(s, k) is Some,
    ensures
        exists|i: int| 0 <= i < s.len() && (#[trigger] s[i]).0 == k && s[i].1 == find_key(s, k)->0,
    decreases s.len(),
{
    if s[0].0 != k {
        lemma_find_key_some(s.drop_first(), k);
        let i = choose|i: int|
            0 <= i < s.drop_first().len() && (#[trigger] s.drop_first()[i]).0 == k
                && s.drop_first()[i].1 == find_key(s.drop_first(), k)->0;
        assert(s[i + 1] == s.drop_first()[i]);
    } else {
        assert(s[0].0 == k);
    }
}

proof fn lemma_missing_none(src: Entries, other: Entries)
    requires
        forall|i: int| 0 <= i < src.len() ==> find_key(other, (#[trigger] src[i]).0) is Some,
    ensures
        keys_missing(src, other) == Seq::<(Seq<char>, JsonV)>::empty(),
    decreases src.len(),
{
    if src.len() > 0 {
        assert forall|i: int| 0 <= i < src.drop_last().len() implies find_key(
            other,
            (#[trigger] src.drop_last()[i]).0,
        ) is Some by {
            assert(src.drop_last()[i] == src[i]);
        }
        lemma_missing_none(src.drop_last(), other);
        assert(find_key(other, src[src.len() - 1].0) is Some);
    }
}

proof fn lemma_changed_none(src: Entries, other: Entries)
    requires
        forall|i: int|
            0 <= i < src.len() ==> find_key(other, (#[trigger] src[i]).0) == Some(src[i].1),
    ensures
        changed_entries(src, other) == Seq::<(Seq<char>, JsonV)>::empty(),
    decreases src.len(),
{
    if src.len() > 0 {
        assert forall|i: int| 0 <= i < src.drop_last().len() implies find_key(
            other,
            (#[trigger] src.drop_last()[i]).0,
        ) == Some(src.drop_last()[i].1) by {
            assert(src.drop_last()[i] == src[i]);
        }
        lemma_changed_none(src.drop_last(), other);
        assert(find_key(other, src[src.len() - 1].0) == Some(src[src.len() - 1].1));
    }
}

/// Whether key `k` of `x` holds a value that `y` holds under `k` differently.
pub open spec fn changed_key(x: Entries, y: Entries, k: Seq<char>) -> bool {
    exists|i: int|
        0 <= i < x.len() && (#[trigger] x[i]).0 == k && find_key(y, k) is Some && find_key(y, k)->0
            != x[i].1
}

proof fn lemma_changed_keys(x: Entries, y: Entries)
    ensures
        key_set(changed_entries(x, y)) == Set::new(|k: Seq<char>| changed_key(x, y, k)),
    decreases x.len(),
{
    let c = changed_entries(x, y);
    if x.len() > 0 {
        let xs = x.drop_last();
        lemma_changed_keys(xs, y);
        let r = changed_entries(xs, y);
        assert forall|k: Seq<char>| key_set(c).contains(k) == changed_key(x, y, k) by {
            if key_set(c).contains(k) {
                let i = choose|i: int| 0 <= i < c.len() && (#[trigger] c[i]).0 == k;
                if i < r.len() {
                    assert(c[i] == r[i]);
                    assert(key_set(r).contains(k));
                    assert(changed_key(xs, y, k));
                    let j = choose|j: int|
                        0 <= j < xs.len() && (#[trigger] xs[j]).0 == k && find_key(y, k) is Some
                            && find_key(y, k)->0 != xs[j].1;
                    assert(x[j] == xs[j]);
                } else {
                    assert(x[x.len() - 1].0 == k);
                }
            }
            if changed_key(x, y, k) {
                let j = choose|j: int|
                    0 <= j < x.len() && (#[trigger] x[j]).0 == k && find_key(y, k) is Some
                        && find_key(y, k)->0 != x[j].1;
                if j < xs.len() {
                    assert(xs[j] == x[j]);
                    assert(changed_key(xs, y, k));
                    assert(key_set(r).contains(k));
                    let i = choose|i: int| 0 <= i < r.len() && (#[trigger] r[i]).0 == k;
                    assert(c[i] == r[i]);
                } else {
                    assert(c[c.len() - 1].0 == k);
                }
            }
        }
        assert(key_set(c) =~= Set::new(|k: Seq<char>| changed_key(x, y, k)));
    } else {
        assert(key_set(c) =~= Set::new(|k: Seq<char>| changed_key(x, y, k)));
    }
}

/// A JSON object diffed against itself has nothing added, removed or changed; any
/// other value diffed against itself gives the empty object.
pub proof fn diff_with_itself_is_empty(x: JsonV)
    requires
        x is Obj ==> unique_keys(x->Obj_0),
    ensures
        x is Obj ==> diff_spec(x, x) == empty_object_diff(),
        !(x is Obj) ==> diff_spec(x, x) == JsonV::Obj(Seq::empty()),
{
    if let JsonV::Obj(e) = x {
        assert forall|i: int| 0 <= i < e.len() implies find_key(e, (#[trigger] e[i]).0) == Some(
            e[i].1,
        ) by {
            lemma_find_key_present(e, i);
        }
        lemma_missing_none(e, e);
        lemma_changed_none(e, e);
    }
}

/// Diffing `b` against `a` instead of `a` against `b` swaps the added and removed
/// sections and keeps the set of changed keys; for values that are not both objects,
/// one diff is empty exactly when the other is.
pub proof fn diff_swapped_is_symmetric(a: JsonV, b: JsonV)
    requires
        a is Obj ==> unique_keys(a->Obj_0),
        b is Obj ==> unique_keys(b->Obj_0),
    ensures
        (a is Obj && b is Obj) ==> {
            let x = a->Obj_0;
            let y = b->Obj_0;
            &&& diff_spec(a, b) == JsonV::Obj(
                seq![
                    ("added"@, JsonV::Obj(keys_missing(y, x))),
                    ("removed"@, JsonV::Obj(keys_missing(x, y))),
                    ("changed"@, JsonV::Obj(changed_entries(x, y))),
                ],
            )
            &&& diff_spec(b, a) == JsonV::Obj(
                seq![
                    ("added"@, JsonV::Obj(keys_missing(x, y))),
                    ("removed"@, JsonV::Obj(keys_missing(y, x))),
                    ("changed"@, JsonV::Obj(changed_entries(y, x))),
                ],
            )
            &&& key_set(changed_entries(x, y)) == key_set(changed_entries(y, x))
        },
        !(a is Obj && b is Obj) ==> (diff_spec(a, b) == JsonV::Obj(Seq::empty())) == (diff_spec(
            b,
            a,
        ) == JsonV::Obj(Seq::empty())),
{
    if let (JsonV::Obj(x), JsonV::Obj(y)) = (a, b) {
        lemma_changed_keys(x, y);
        lemma_changed_keys(y, x);
        assert forall|k: Seq<char>| changed_key(x, y, k) == changed_key(y, x, k) by {
            if changed_key(x, y, k) {
                let i = choose|i: int|
                    0 <= i < x.len() && (#[trigger] x[i]).0 == k && find_key(y, k) is Some
                        && find_key(y, k)->0 != x[i].1;
                lemma_find_key_present(x, i);
                lemma_find_key_some(y, k);
            }
            if changed_key(y, x, k) {
                let i = choose|i: int|
                    0 <= i < y.len() && (#[trigger] y[i]).0 == k && find_key(x, k) is Some
                        && find_key(x, k)->0 != y[i].1;
                lemma_find_key_present(y, i);
                lemma_find_key_some(x, k);
            }
        }
        assert(Set::new(|k: Seq<char>| changed_key(x, y, k)) =~= Set::new(
            |k: Seq<char>| changed_key(y, x, k),
        ));
    } else {
        if a != b {
            assert(diff_spec(a, b)->Obj_0.len() == 1);
            assert(diff_spec(b, a)->Obj_0.len() == 1);
        }
    }
}

/// Every key of `keys_missing(src, other)` or `changed_entries(src, other)` is a key of
/// `src`.
proof fn lemma_sections_keys(src: Entries, other: Entries)
    ensures
        forall|i: int| 0 <= i < keys_missing(src, other).len() ==> exists|j: int|
            0 <= j < src.len() && (#[trigger] src[j]).0 == (#[trigger] keys_missing(src, other)[i]).0,
        forall|i: int| 0 <= i < changed_entries(src, other).len() ==> exists|j: int|
            0 <= j < src.len() && (#[trigger] src[j]).0 == (#[trigger] changed_entries(src, other)[i]).0,
        keys_missing(src, other).len() <= src.len(),
        changed_entries(src, other).len() <= src.len(),
    decreases src.len(),
{
    if src.len() > 0 {
        let p = src.drop_last();
        lemma_sections_keys(p, other);
        assert forall|i: int| 0 <= i < keys_missing(src, other).len() implies exists|j: int|
            0 <= j < src.len() && (#[trigger] src[j]).0 == (#[trigger] keys_missing(src, other)[i]).0 by {
            if i < keys_missing(p, other).len() {
                assert(keys_missing(src, other)[i] == keys_missing(p, other)[i]);
                let j = choose|j: int| 0 <= j < p.len() && (#[trigger] p[j]).0 == keys_missing(p, other)[i].0;
                assert(src[j] == p[j]);
            } else {
                assert(src[src.len() - 1].0 == keys_missing(src, other)[i].0);
            }
        }
        assert forall|i: int| 0 <= i < changed_entries(src, other).len() implies exists|j: int|
            0 <= j < src.len() && (#[trigger] src[j]).0 == (#[trigger] changed_entries(src, other)[i]).0 by {
            if i < changed_entries(p, other).len() {
                assert(changed_entries(src, other)[i] == changed_entries(p, other)[i]);
                let j = choose|j: int| 0 <= j < p.len() && (#[trigger] p[j]).0 == changed_entries(p, other)[i].0;
                assert(src[j] == p[j]);
            } else {
                assert(src[src.len() - 1].0 == changed_entries(src, other)[i].0);
            }
        }
    }
}

/// The sections of a diff of objects with unique keys have unique keys too.
pub proof fn lemma_sections_unique(src: Entries, other: Entries)
    requires
        unique_keys(src),
    ensures
        unique_keys(keys_missing(src, other)),
        unique_keys(changed_entries(src, other)),
    decreases src.len(),
{
    if src.len() > 0 {
        let p = src.drop_last();
        assert(unique_keys(p)) by {
            assert forall|a: int, b: int| 0 <= a < b < p.len() implies (#[trigger] p[a]).0 != (#[trigger] p[b]).0 by {
                assert(p[a] == src[a] && p[b] == src[b]);
            }
        }
        lemma_sections_unique(p, other);
        lemma_sections_keys(p, other);
        let k = src[src.len() - 1].0;
        assert forall|j: int| 0 <= j < p.len() implies (#[trigger] p[j]).0 != k by {
            assert(p[j] == src[j]);
        }
        let km = keys_missing(src, other);
        assert forall|a: int, b: int| 0 <= a < b < km.len() implies (#[trigger] km[a]).0 != (#[trigger] km[b]).0 by {
            if b >= keys_missing(p, other).len() {
                assert(km[a] == keys_missing(p, other)[a]);
                let j = choose|j: int| 0 <= j < p.len() && (#[trigger] p[j]).0 == keys_missing(p, other)[a].0;
            } else {
                assert(km[a] == keys_missing(p, other)[a]);
                assert(km[b] == keys_missing(p, other)[b]);
            }
        }
        let ce = changed_entries(src, other);
        assert forall|a: int, b: int| 0 <= a < b < ce.len() implies (#[trigger] ce[a]).0 != (#[trigger] ce[b]).0 by {
            if b >= changed_entries(p, other).len() {
                assert(ce[a] == changed_entries(p, other)[a]);
                let j = choose|j: int| 0 <= j < p.len() && (#[trigger] p[j]).0 == changed_entries(p, other)[a].0;
            } else {
                assert(ce[a] == changed_entries(p, other)[a]);
                assert(ce[b] == changed_entries(p, other)[b]);
            }
        }
    }
}

/// A JSON value whose objects, at the top level, have unique keys.
pub open spec fn well_formed(j: JsonV) -> bool {
    j is Obj ==> unique_keys(j->Obj_0)
}

/// Diffing well-formed objects gives a well-formed diff whose sections are well formed.
pub proof fn diff_is_well_formed(a: JsonV, b: JsonV)
    requires
        well_formed(a),
        well_formed(b),
    ensures
        well_formed(diff_spec(a, b)),
        (a is Obj && b is Obj) ==> {
            &&& well_formed(JsonV::Obj(keys_missing(b->Obj_0, a->Obj_0)))
            &&& well_formed(JsonV::Obj(keys_missing(a->Obj_0, b->Obj_0)))
            &&& well_formed(JsonV::Obj(changed_entries(a->Obj_0, b->Obj_0)))
        },
{
    reveal_strlit("added");
    reveal_strlit("removed");
    reveal_strlit("changed");
    assert("added"@.len() == 5);
    assert("removed"@.len() == 7);
    assert("changed"@.len() == 7);
    assert("removed"@[0] != "changed"@[0]);
    if let (JsonV::Obj(x), JsonV::Obj(y)) = (a, b) {
        lemma_sections_unique(x, y);
        lemma_sections_unique(y, x);
    }
}

} // verus!
