//! A JSON value model, with a view in which strings are character sequences.
use vstd::prelude::*;

verus! {

#[derive(Debug)]
pub enum Json {
    Null,
    Bool(bool),
    Num(u64),
    Str(String),
    Arr(Vec<Json>),
    Obj(Vec<(String, Json)>),
}

pub enum JsonV {
    Null,
    Bool(bool),
    Num(u64),
    Str(Seq<char>),
    Arr(Seq<JsonV>),
    Obj(Seq<(Seq<char>, JsonV)>),
}

pub open spec fn json_list_view(v: Vec<Json>, n: nat) -> Seq<JsonV>
    decreases v, n,
{
    if n == 0 || n > v.len() {
        Seq::empty()
    } else {
        json_list_view(v, (n - 1) as nat).push(json_view(v[n - 1]))
    }
}

pub open spec fn json_entries_view(v: Vec<(String, Json)>, n: nat) -> Seq<(Seq<char>, JsonV)>
    decreases v, n,
{
    if n == 0 || n > v.len() {
        Seq::empty()
    } else {
        json_entries_view(v, (n - 1) as nat).push((v[n - 1].0@, json_view(v[n - 1].1)))
    }
}

pub open spec fn json_view(j: Json) -> JsonV
    decreases j, 0nat,
{
    match j {
        Json::Null => JsonV::Null,
        Json::Bool(b) => JsonV::Bool(b),
        Json::Num(n) => JsonV::Num(n),
        Json::Str(s) => JsonV::Str(s@),
        Json::Arr(v) => JsonV::Arr(json_list_view(v, v.len() as nat)),
        Json::Obj(v) => JsonV::Obj(json_entries_view(v, v.len() as nat)),
    }
}

impl View for Json {
    type V = JsonV;

    open spec fn view(&self) -> JsonV {
        json_view(*self)
    }
}

pub proof fn lemma_list_view(v: Vec<Json>, n: nat)
    requires
        n <= v.len(),
    ensures
        json_list_view(v, n).len() == n,
        forall|i: int| 0 <= i < n ==> #[trigger] json_list_view(v, n)[i] == json_view(v[i]),
    decreases n,
{
    if n > 0 {
        lemma_list_view(v, (n - 1) as nat);
    }
}

pub proof fn lemma_entries_view(v: Vec<(String, Json)>, n: nat)
    requires
        n <= v.len(),
    ensures
        json_entries_view(v, n).len() == n,
        forall|i: int|
            0 <= i < n ==> #[trigger] json_entries_view(v, n)[i] == (v[i].0@, json_view(v[i].1)),
    decreases n,
{
    if n > 0 {
        lemma_entries_view(v, (n - 1) as nat);
    }
}

pub fn json_eq(a: &Json, b: &Json) -> (r: bool)
    ensures
        r == (a@ == b@),
    decreases a,
{
    match (a, b) {
        (Json::Null, Json::Null) => true,
        (Json::Bool(x), Json::Bool(y)) => *x == *y,
        (Json::Num(x), Json::Num(y)) => *x == *y,
        (Json::Str(x), Json::Str(y)) => {
            let r = x.eq(y);
            assert(r == (a@ == b@));
            r
        },
        (Json::Arr(x), Json::Arr(y)) => {
            proof {
                lemma_list_view(*x, x.len() as nat);
                lemma_list_view(*y, y.len() as nat);
            }
            if x.len() != y.len() {
                assert(a@->Arr_0.len() != b@->Arr_0.len());
                return false;
            }
            let mut i: usize = 0;
            while i < x.len()
                invariant
                    x.len() == y.len(),
                    i <= x.len(),
                    a == Json::Arr(*x),
                    b == Json::Arr(*y),
                    forall|j: int| 0 <= j < i ==> x[j]@ == y[j]@,
                    json_list_view(*x, x.len() as nat).len() == x.len(),
                    json_list_view(*y, y.len() as nat).len() == y.len(),
                    forall|j: int| 0 <= j < x.len() ==> #[trigger] json_list_view(*x, x.len() as nat)[j] == json_view(x[j]),
                    forall|j: int| 0 <= j < y.len() ==> #[trigger] json_list_view(*y, y.len() as nat)[j] == json_view(y[j]),
                decreases x.len() - i,
            {
                if !json_eq(&x[i], &y[i]) {
                    assert(a@->Arr_0[i as int] != b@->Arr_0[i as int]);
                    return false;
                }
                i += 1;
            }
            assert(a@->Arr_0 =~= b@->Arr_0);
            assert(a@ == b@);
            true
        }
        (Json::Obj(x), Json::Obj(y)) => {
            proof {
                lemma_entries_view(*x, x.len() as nat);
                lemma_entries_view(*y, y.len() as nat);
            }
            if x.len() != y.len() {
                assert(a@->Obj_0.len() != b@->Obj_0.len());
                return false;
            }
            let mut i: usize = 0;
            while i < x.len()
                invariant
                    x.len() == y.len(),
                    i <= x.len(),
                    a == Json::Obj(*x),
                    b == Json::Obj(*y),
                    forall|j: int| 0 <= j < i ==> x[j].0@ == y[j].0@ && x[j].1@ == y[j].1@,
                    json_entries_view(*x, x.len() as nat).len() == x.len(),
                    json_entries_view(*y, y.len() as nat).len() == y.len(),
                    forall|j: int| 0 <= j < x.len() ==> #[trigger] json_entries_view(*x, x.len() as nat)[j] == (x[j].0@, json_view(x[j].1)),
                    forall|j: int| 0 <= j < y.len() ==> #[trigger] json_entries_view(*y, y.len() as nat)[j] == (y[j].0@, json_view(y[j].1)),
                decreases x.len() - i,
            {
                if x[i].0 != y[i].0 || !json_eq(&x[i].1, &y[i].1) {
                    assert(a@->Obj_0[i as int] != b@->Obj_0[i as int]);
                    return false;
                }
                i += 1;
            }
            assert(a@->Obj_0 =~= b@->Obj_0);
            assert(a@ == b@);
            true
        }
        _ => false,
    }
}

impl Clone for Json {
    fn clone(&self) -> (r: Json)
        ensures
            r@ == self@,
    {
        copy_json(self)
    }
}

/// Appends an entry to an object's entries.
pub fn push_entry(out: &mut Vec<(String, Json)>, k: String, v: Json)
    ensures
        entries_view(*final(out)) == entries_view(*old(out)).push((k@, v@)),
{
    let ghost before = *out;
    proof {
        lemma_entries_view(before, before.len() as nat);
    }
    out.push((k, v));
    proof {
        lemma_entries_view(*out, out.len() as nat);
        assert(entries_view(*out) =~= entries_view(before).push((k@, v@)));
    }
}

/// Appends an item to an array's items.
pub fn push_item(out: &mut Vec<Json>, v: Json)
    ensures
        list_view(*final(out)) == list_view(*old(out)).push(v@),
{
    let ghost before = *out;
    proof {
        lemma_list_view(before, before.len() as nat);
    }
    out.push(v);
    proof {
        lemma_list_view(*out, out.len() as nat);
        assert(list_view(*out) =~= list_view(before).push(v@));
    }
}

/// First value stored under `k` in an object's entries.
pub open spec fn find_key(e: Seq<(Seq<char>, JsonV)>, k: Seq<char>) -> Option<JsonV>
    decreases e.len(),
{
    if e.len() == 0 {
        None
    } else if e[0].0 == k {
        Some(e[0].1)
    } else {
        find_key(e.drop_first(), k)
    }
}

pub open spec fn entries_view(v: Vec<(String, Json)>) -> Seq<(Seq<char>, JsonV)> {
    json_entries_view(v, v.len() as nat)
}

pub open spec fn list_view(v: Vec<Json>) -> Seq<JsonV> {
    json_list_view(v, v.len() as nat)
}

/// Looks up the first entry stored under `key`.
pub fn get_entry<'a>(entries: &'a Vec<(String, Json)>, key: &str) -> (r: Option<&'a Json>)
    ensures
        find_key(entries_view(*entries), key@) == (match r {
            Some(j) => Some(j@),
            None => None::<JsonV>,
        }),
{
    proof {
        lemma_entries_view(*entries, entries.len() as nat);
    }
    let ghost ev = entries_view(*entries);
    assert(ev.skip(0) =~= ev);
    let mut i: usize = 0;
    while i < entries.len()
        invariant
            ev == entries_view(*entries),
            ev.len() == entries.len(),
            forall|j: int| 0 <= j < entries.len() ==> #[trigger] ev[j] == (entries[j].0@, entries[j].1@),
            i <= entries.len(),
            find_key(ev, key@) == find_key(ev.skip(i as int), key@),
        decreases entries.len() - i,
    {
        assert(ev.skip(i as int)[0] == ev[i as int]);
        if crate::text::str_eq(entries[i].0.as_str(), key) {
            return Some(&entries[i].1);
        }
        assert(ev.skip(i as int).drop_first() =~= ev.skip(i + 1));
        i += 1;
    }
    None
}

/// A boolean entry, read as `false` where it is absent or not a boolean.
pub open spec fn entry_bool(e: Seq<(Seq<char>, JsonV)>, k: Seq<char>) -> bool {
    match find_key(e, k) {
        Some(JsonV::Bool(b)) => b,
        _ => false,
    }
}

/// A string entry, absent where the key is missing or holds another kind of value.
pub open spec fn entry_str(e: Seq<(Seq<char>, JsonV)>, k: Seq<char>) -> Option<Seq<char>> {
    match find_key(e, k) {
        Some(JsonV::Str(s)) => Some(s),
        _ => None,
    }
}

/// An array entry, absent where the key is missing or holds another kind of value.
pub open spec fn entry_arr(e: Seq<(Seq<char>, JsonV)>, k: Seq<char>) -> Option<Seq<JsonV>> {
    match find_key(e, k) {
        Some(JsonV::Arr(a)) => Some(a),
        _ => None,
    }
}

pub fn get_bool(entries: &Vec<(String, Json)>, key: &str) -> (r: bool)
    ensures
        r == entry_bool(entries_view(*entries), key@),
{
    match get_entry(entries, key) {
        Some(Json::Bool(b)) => *b,
        _ => false,
    }
}

pub fn get_str<'a>(entries: &'a Vec<(String, Json)>, key: &str) -> (r: Option<&'a String>)
    ensures
        entry_str(entries_view(*entries), key@) == (match r {
            Some(s) => Some(s@),
            None => None::<Seq<char>>,
        }),
{
    match get_entry(entries, key) {
        Some(Json::Str(s)) => Some(s),
        _ => None,
    }
}

pub fn get_arr<'a>(entries: &'a Vec<(String, Json)>, key: &str) -> (r: Option<&'a Vec<Json>>)
    ensures
        entry_arr(entries_view(*entries), key@) == (match r {
            Some(a) => Some(list_view(*a)),
            None => None::<Seq<JsonV>>,
        }),
{
    match get_entry(entries, key) {
        Some(Json::Arr(a)) => Some(a),
        _ => None,
    }
}

/// A copy of a value with the same view.
pub fn copy_json(j: &Json) -> (r: Json)
    ensures
        r@ == j@,
    decreases j, 0nat,
{
    match j {
        Json::Null => Json::Null,
        Json::Bool(b) => Json::Bool(*b),
        Json::Num(n) => Json::Num(*n),
        Json::Str(s) => Json::Str(s.clone()),
        Json::Arr(v) => Json::Arr(copy_list(v)),
        Json::Obj(v) => {
            let out = copy_entries(v);
            Json::Obj(out)
        }
    }
}

pub fn copy_list(v: &Vec<Json>) -> (r: Vec<Json>)
    ensures
        list_view(r) == list_view(*v),
    decreases v, 1nat,
{
    proof {
        lemma_list_view(*v, v.len() as nat);
    }
    let mut out: Vec<Json> = Vec::new();
    let mut i: usize = 0;
    while i < v.len()
        invariant
            i <= v.len(),
            out.len() == i,
            forall|k: int| 0 <= k < i ==> out[k]@ == v[k]@,
        decreases v.len() - i,
    {
        proof {
            vstd::std_specs::vec::axiom_vec_index_decreases(*v, i as int);
        }
        out.push(copy_json(&v[i]));
        i += 1;
    }
    proof {
        lemma_list_view(out, out.len() as nat);
        assert(list_view(out) =~= list_view(*v));
    }
    out
}

pub fn copy_entries(v: &Vec<(String, Json)>) -> (r: Vec<(String, Json)>)
    ensures
        entries_view(r) == entries_view(*v),
    decreases v, 1nat,
{
    proof {
        lemma_entries_view(*v, v.len() as nat);
    }
    let mut out: Vec<(String, Json)> = Vec::new();
    let mut i: usize = 0;
    while i < v.len()
        invariant
            i <= v.len(),
            out.len() == i,
            forall|k: int| 0 <= k < i ==> out[k].0@ == v[k].0@ && out[k].1@ == v[k].1@,
        decreases v.len() - i,
    {
        proof {
            vstd::std_specs::vec::axiom_vec_index_decreases(*v, i as int);
        }
        let k = v[i].0.clone();
        let x = copy_json(&v[i].1);
        out.push((k, x));
        i += 1;
    }
    proof {
        lemma_entries_view(out, out.len() as nat);
        assert(entries_view(out) =~= entries_view(*v));
    }
    out
}

} // verus!
