//! Orders on strings and a specification of insertion sort, with the facts that make a
//! sorted arrangement unique.
use vstd::prelude::*;

verus! {

broadcast use vstd::seq_lib::group_to_multiset_ensures;

/// Lexicographic order on character sequences by code point, which is the order of
/// `String`'s `Ord`.
pub open spec fn seq_le(a: Seq<char>, b: Seq<char>) -> bool
    decreases a.len(),
{
    if a.len() == 0 {
        true
    } else if b.len() == 0 {
        false
    } else if a[0] != b[0] {
        a[0] < b[0]
    } else {
        seq_le(a.drop_first(), b.drop_first())
    }
}

pub proof fn lemma_seq_le_total(a: Seq<char>, b: Seq<char>)
    ensures
        seq_le(a, b) || seq_le(b, a),
    decreases a.len(),
{
    if a.len() > 0 && b.len() > 0 && a[0] == b[0] {
        lemma_seq_le_total(a.drop_first(), b.drop_first());
    }
}

pub proof fn lemma_seq_le_antisym(a: Seq<char>, b: Seq<char>)
    requires
        seq_le(a, b),
        seq_le(b, a),
    ensures
        a == b,
    decreases a.len(),
{
    if a.len() > 0 && b.len() > 0 {
        if a[0] == b[0] {
            lemma_seq_le_antisym(a.drop_first(), b.drop_first());
            assert(a =~= seq![a[0]] + a.drop_first());
            assert(b =~= seq![b[0]] + b.drop_first());
        } else {
        }
    } else {
        assert(a.len() == 0 && b.len() == 0);
        assert(a =~= b);
    }
}

pub proof fn lemma_seq_le_trans(a: Seq<char>, b: Seq<char>, c: Seq<char>)
    requires
        seq_le(a, b),
        seq_le(b, c),
    ensures
        seq_le(a, c),
    decreases a.len(),
{
    if a.len() > 0 && b.len() > 0 && c.len() > 0 && a[0] == b[0] && b[0] == c[0] {
        lemma_seq_le_trans(a.drop_first(), b.drop_first(), c.drop_first());
    }
}

pub fn str_le(a: &Vec<char>, b: &Vec<char>) -> (r: bool)
    ensures
        r == seq_le(a@, b@),
{
    let mut i: usize = 0;
    assert(a@.skip(0) =~= a@);
    assert(b@.skip(0) =~= b@);
    while i < a.len() && i < b.len() && a[i] == b[i]
        invariant
            i <= a@.len(),
            i <= b@.len(),
            seq_le(a@, b@) == seq_le(a@.skip(i as int), b@.skip(i as int)),
        decreases a@.len() - i,
    {
        assert(a@.skip(i as int).drop_first() =~= a@.skip(i + 1));
        assert(b@.skip(i as int).drop_first() =~= b@.skip(i + 1));
        i += 1;
    }
    if i == a.len() {
        true
    } else if i == b.len() {
        false
    } else {
        assert(a@.skip(i as int)[0] == a@[i as int]);
        assert(b@.skip(i as int)[0] == b@[i as int]);
        a[i] < b[i]
    }
}

pub open spec fn total<V>(le: spec_fn(V, V) -> bool) -> bool {
    forall|a: V, b: V| #[trigger] le(a, b) || le(b, a)
}

pub open spec fn transitive<V>(le: spec_fn(V, V) -> bool) -> bool {
    forall|a: V, b: V, c: V| #[trigger] le(a, b) && #[trigger] le(b, c) ==> le(a, c)
}

pub open spec fn antisymmetric<V>(le: spec_fn(V, V) -> bool) -> bool {
    forall|a: V, b: V| #[trigger] le(a, b) && le(b, a) ==> a == b
}

/// `le` is antisymmetric on the elements of `s`.
pub open spec fn antisymmetric_on<V>(le: spec_fn(V, V) -> bool, s: Seq<V>) -> bool {
    forall|a: V, b: V| s.contains(a) && s.contains(b) && #[trigger] le(a, b) && #[trigger] le(b, a) ==> a == b
}

pub open spec fn sorted<V>(s: Seq<V>, le: spec_fn(V, V) -> bool) -> bool {
    forall|i: int, j: int| 0 <= i < j < s.len() ==> le(#[trigger] s[i], #[trigger] s[j])
}

/// Where insertion sort puts `x`: after every leading element that is `le` it.
pub open spec fn ins_pos<V>(s: Seq<V>, x: V, le: spec_fn(V, V) -> bool, p: int) -> int
    decreases s.len() - p,
{
    if p < 0 || p >= s.len() {
        s.len() as int
    } else if !le(s[p], x) {
        p
    } else {
        ins_pos(s, x, le, p + 1)
    }
}

/// Insertion sort, stable: each element goes after the ones before it that are `le` it.
pub open spec fn isort<V>(s: Seq<V>, le: spec_fn(V, V) -> bool) -> Seq<V>
    decreases s.len(),
{
    if s.len() == 0 {
        s
    } else {
        let r = isort(s.drop_last(), le);
        r.insert(ins_pos(r, s.last(), le, 0), s.last())
    }
}

proof fn lemma_ins_pos<V>(s: Seq<V>, x: V, le: spec_fn(V, V) -> bool, p: int)
    requires
        0 <= p <= s.len(),
        forall|j: int| 0 <= j < p ==> le(#[trigger] s[j], x),
    ensures
        p <= ins_pos(s, x, le, p) <= s.len(),
        forall|j: int| 0 <= j < ins_pos(s, x, le, p) ==> le(#[trigger] s[j], x),
        ins_pos(s, x, le, p) < s.len() ==> !le(s[ins_pos(s, x, le, p)], x),
    decreases s.len() - p,
{
    if p < s.len() && le(s[p], x) {
        lemma_ins_pos(s, x, le, p + 1);
    }
}

pub proof fn lemma_isort<V>(s: Seq<V>, le: spec_fn(V, V) -> bool)
    requires
        total(le),
        transitive(le),
    ensures
        isort(s, le).to_multiset() == s.to_multiset(),
        isort(s, le).len() == s.len(),
        sorted(isort(s, le), le),
    decreases s.len(),
{
    if s.len() > 0 {
        let r = isort(s.drop_last(), le);
        lemma_isort(s.drop_last(), le);
        let x = s.last();
        lemma_ins_pos(r, x, le, 0);
        let p = ins_pos(r, x, le, 0);
        let t = r.insert(p, x);
        assert(t.len() == r.len() + 1);
        assert(t.to_multiset() =~= r.to_multiset().insert(x)) by {
            vstd::seq_lib::to_multiset_insert(r, p, x);
        }
        assert(s.drop_last().push(x) =~= s);
        assert(s.to_multiset() =~= s.drop_last().to_multiset().insert(x));
        assert forall|i: int, j: int| 0 <= i < j < t.len() implies le(#[trigger] t[i], #[trigger] t[j]) by {
            if j < p {
                assert(t[i] == r[i] && t[j] == r[j]);
            } else if j == p {
                assert(t[i] == r[i] && t[j] == x);
            } else if i < p {
                assert(t[i] == r[i] && t[j] == r[j - 1]);
                assert(le(r[i], r[j - 1]));
            } else if i == p {
                assert(t[i] == x && t[j] == r[j - 1]);
                assert(!le(r[p], x));
                assert(le(x, r[p]));
                if j - 1 > p {
                    assert(le(r[p], r[j - 1]));
                }
            } else {
                assert(t[i] == r[i - 1] && t[j] == r[j - 1]);
            }
        }
    }
}

/// Two sorted arrangements of the same multiset are equal when `le` is antisymmetric.
pub proof fn lemma_sorted_unique<V>(s1: Seq<V>, s2: Seq<V>, le: spec_fn(V, V) -> bool)
    requires
        total(le),
        antisymmetric_on(le, s1),
        sorted(s1, le),
        sorted(s2, le),
        s1.to_multiset() == s2.to_multiset(),
    ensures
        s1 == s2,
    decreases s1.len(),
{
    assert(s1.len() == s1.to_multiset().len());
    assert(s2.len() == s2.to_multiset().len());
    if s1.len() > 0 {
        let x = s1[0];
        let y = s2[0];
        assert(s1.contains(x));
        assert(s1.to_multiset().count(x) > 0);
        assert(s2.contains(x));
        let j = choose|j: int| 0 <= j < s2.len() && s2[j] == x;
        assert(s2.to_multiset().count(y) > 0);
        assert(s1.contains(y));
        let i = choose|i: int| 0 <= i < s1.len() && s1[i] == y;
        if j > 0 {
            assert(le(s2[0], s2[j]));
        }
        if i > 0 {
            assert(le(s1[0], s1[i]));
        }
        assert(le(x, x));
        assert(le(y, y));
        assert(le(y, x));
        assert(le(x, y));
        assert(x == y);
        let t1 = s1.drop_first();
        let t2 = s2.drop_first();
        assert(s1.remove(0) =~= t1);
        assert(s2.remove(0) =~= t2);
        assert(t1.to_multiset() =~= s1.to_multiset().remove(x));
        assert(t2.to_multiset() =~= s2.to_multiset().remove(y));
        assert forall|a: int, b: int| 0 <= a < b < t1.len() implies le(#[trigger] t1[a], #[trigger] t1[b]) by {
            assert(t1[a] == s1[a + 1] && t1[b] == s1[b + 1]);
        }
        assert forall|a: int, b: int| 0 <= a < b < t2.len() implies le(#[trigger] t2[a], #[trigger] t2[b]) by {
            assert(t2[a] == s2[a + 1] && t2[b] == s2[b + 1]);
        }
        assert forall|p: V, q: V|
            t1.contains(p) && t1.contains(q) && #[trigger] le(p, q) && #[trigger] le(q, p) implies p
            == q by {
            let a = choose|a: int| 0 <= a < t1.len() && t1[a] == p;
            let b = choose|b: int| 0 <= b < t1.len() && t1[b] == q;
            assert(s1[a + 1] == p && s1[b + 1] == q);
        }
        lemma_sorted_unique(t1, t2, le);
        assert(s1 =~= seq![x] + t1);
        assert(s2 =~= seq![y] + t2);
    } else {
        assert(s1 =~= s2);
    }
}

/// Insertion sort gives the same result for any two arrangements of the same multiset,
/// when `le` is a total order.
pub proof fn lemma_isort_permutation<V>(s1: Seq<V>, s2: Seq<V>, le: spec_fn(V, V) -> bool)
    requires
        total(le),
        transitive(le),
        antisymmetric_on(le, s1),
        s1.to_multiset() == s2.to_multiset(),
    ensures
        isort(s1, le) == isort(s2, le),
{
    lemma_isort(s1, le);
    lemma_isort(s2, le);
    let t = isort(s1, le);
    assert forall|p: V, q: V|
        t.contains(p) && t.contains(q) && #[trigger] le(p, q) && #[trigger] le(q, p) implies p == q by {
        assert(t.to_multiset().count(p) > 0);
        assert(t.to_multiset().count(q) > 0);
        assert(s1.contains(p) && s1.contains(q));
    }
    lemma_sorted_unique(isort(s1, le), isort(s2, le), le);
}

} // verus!
