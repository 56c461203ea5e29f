//! Scan history: file naming, retention, and the diff of two recorded scans.
use crate::graph::{any_node, has_node};
use crate::json::{entries_view, json_eq, lemma_entries_view};
use crate::models::{issues_view, nodes_view, IssueV, Node, NodeV, SystemState};
use crate::order::{ins_pos, isort, lemma_isort, total, transitive};
use crate::text::{chars_of, push_char, str_eq};
use vstd::prelude::*;

verus! {

broadcast use vstd::seq_lib::group_to_multiset_ensures;

/// How many scans the history keeps.
pub const MAX_HISTORY: usize = 10;

/// `s` with every `:` replaced by `-`.
pub open spec fn dashed(s: Seq<char>) -> Seq<char> {
    s.map_values(|c: char| if c == ':' { '-' } else { c })
}

/// The history file name for a scan taken at `timestamp`.
pub fn history_file_name(timestamp: &str) -> (r: String)
    ensures
        r@ == "scan-"@ + dashed(timestamp@) + ".json"@,
{
    let x = chars_of(timestamp);
    let mut s = String::from_str("scan-");
    let ghost start = s@;
    let mut i: usize = 0;
    while i < x.len()
        invariant
            x@ == timestamp@,
            i <= x@.len(),
            s@ == start + dashed(timestamp@.take(i as int)),
        decreases x@.len() - i,
    {
        push_char(&mut s, if x[i] == ':' { '-' } else { x[i] });
        i += 1;
        assert(s@ =~= start + dashed(timestamp@.take(i as int)));
    }
    assert(timestamp@.take(x.len() as int) =~= timestamp@);
    s.append(".json");
    s
}

/// A recorded scan file: its name and modification time in seconds.
#[derive(Debug, Clone)]
pub struct HistoryEntry {
    pub name: String,
    pub modified: u64,
}

pub open spec fn entry_view(e: HistoryEntry) -> (Seq<char>, u64) {
    (e.name@, e.modified)
}

pub open spec fn history_view(v: Seq<HistoryEntry>) -> Seq<(Seq<char>, u64)> {
    v.map_values(|e: HistoryEntry| entry_view(e))
}

pub open spec fn older_first() -> spec_fn((Seq<char>, u64), (Seq<char>, u64)) -> bool {
    |a: (Seq<char>, u64), b: (Seq<char>, u64)| a.1 <= b.1
}

/// The entries to delete so that at most `bound` remain: the oldest by modification
/// time, ties in listing order.
pub open spec fn to_prune(entries: Seq<(Seq<char>, u64)>, bound: nat) -> Seq<(Seq<char>, u64)> {
    let s = isort(entries, older_first());
    if s.len() > bound {
        s.take(s.len() - bound)
    } else {
        Seq::empty()
    }
}

/// The entries that stay.
pub open spec fn to_keep(entries: Seq<(Seq<char>, u64)>, bound: nat) -> Seq<(Seq<char>, u64)> {
    let s = isort(entries, older_first());
    if s.len() > bound {
        s.skip(s.len() - bound)
    } else {
        s
    }
}

/// Splits the entries into those to delete and those to keep.
pub fn prune_plan(entries: &Vec<HistoryEntry>, bound: usize) -> (r: (Vec<HistoryEntry>, Vec<HistoryEntry>))
    ensures
        history_view(r.0@) == to_prune(history_view(entries@), bound as nat),
        history_view(r.1@) == to_keep(history_view(entries@), bound as nat),
{
    let ghost le = older_first();
    let ghost sv = history_view(entries@);
    let mut out: Vec<HistoryEntry> = Vec::new();
    assert(history_view(out@) =~= isort(sv.take(0), le));
    let mut i: usize = 0;
    while i < entries.len()
        invariant
            le == older_first(),
            sv == history_view(entries@),
            i <= entries.len(),
            history_view(out@) == isort(sv.take(i as int), le),
        decreases entries.len() - i,
    {
        let x = HistoryEntry { name: entries[i].name.clone(), modified: entries[i].modified };
        let ghost ov = history_view(out@);
        let mut p: usize = 0;
        while p < out.len() && out[p].modified <= x.modified
            invariant
                le == older_first(),
                ov == history_view(out@),
                p <= out.len(),
                ins_pos(ov, entry_view(x), le, 0) == ins_pos(ov, entry_view(x), le, p as int),
            decreases out.len() - p,
        {
            p += 1;
        }
        out.insert(p, x);
        proof {
            assert(sv.take(i + 1).drop_last() =~= sv.take(i as int));
            assert(sv.take(i + 1).last() == entry_view(x));
            assert(history_view(out@) =~= ov.insert(p as int, entry_view(x)));
        }
        i += 1;
    }
    assert(sv.take(entries.len() as int) =~= sv);
    let ghost all = history_view(out@);
    let n = out.len();
    let cut = if n > bound { n - bound } else { 0 };
    let keep = out.split_off(cut);
    proof {
        assert(history_view(out@) =~= if all.len() > bound { all.take(all.len() - bound) } else { Seq::empty() });
        assert(history_view(keep@) =~= if all.len() > bound { all.skip(all.len() - bound) } else { all });
    }
    (out, keep)
}

/// Recording one scan more than the bound leaves exactly the bound, and the one
/// deleted is an oldest entry.
pub proof fn retention_removes_the_oldest(entries: Seq<(Seq<char>, u64)>, bound: nat)
    requires
        entries.len() == bound + 1,
    ensures
        to_keep(entries, bound).len() == bound,
        to_prune(entries, bound).len() == 1,
        entries.contains(to_prune(entries, bound)[0]),
        forall|i: int| 0 <= i < entries.len() ==> to_prune(entries, bound)[0].1 <= (#[trigger] entries[i]).1,
        to_prune(entries, bound).to_multiset().add(to_keep(entries, bound).to_multiset())
            == entries.to_multiset(),
{
    let le = older_first();
    assert(total(le));
    assert(transitive(le));
    lemma_isort(entries, le);
    let s = isort(entries, le);
    assert(s.take(1) + s.skip(1) =~= s);
    vstd::seq_lib::lemma_multiset_commutative(s.take(1), s.skip(1));
    assert(s.contains(s[0]));
    assert(s.to_multiset().count(s[0]) > 0);
    assert forall|i: int| 0 <= i < entries.len() implies s[0].1 <= (#[trigger] entries[i]).1 by {
        assert(entries.contains(entries[i]));
        assert(s.to_multiset().count(entries[i]) > 0);
        assert(s.contains(entries[i]));
        let j = choose|j: int| 0 <= j < s.len() && s[j] == entries[i];
        if j > 0 {
            assert(le(s[0], s[j]));
        }
    }
}

/// What changed between two recorded scans, keyed by node id and issue code.
#[derive(Debug, Clone)]
pub struct ScanDiff {
    pub added_nodes: Vec<String>,
    pub removed_nodes: Vec<String>,
    pub changed_nodes: Vec<String>,
    pub added_issues: Vec<String>,
    pub removed_issues: Vec<String>,
}

/// Ids of the nodes of `a` whose id `b` lacks, in order.
pub open spec fn ids_missing(a: Seq<NodeV>, b: Seq<NodeV>) -> Seq<Seq<char>>
    decreases a.len(),
{
    if a.len() == 0 {
        Seq::empty()
    } else {
        let r = ids_missing(a.drop_last(), b);
        if has_node(b, a.last().id) {
            r
        } else {
            r.push(a.last().id)
        }
    }
}

/// The first node of `b` with this id.
pub open spec fn first_node(b: Seq<NodeV>, id: Seq<char>) -> Option<NodeV>
    decreases b.len(),
{
    if b.len() == 0 {
        None
    } else if b[0].id == id {
        Some(b[0])
    } else {
        first_node(b.drop_first(), id)
    }
}

/// Ids of the nodes of `cur` that `prev` holds differently.
pub open spec fn ids_changed(cur: Seq<NodeV>, prev: Seq<NodeV>) -> Seq<Seq<char>>
    decreases cur.len(),
{
    if cur.len() == 0 {
        Seq::empty()
    } else {
        let r = ids_changed(cur.drop_last(), prev);
        match first_node(prev, cur.last().id) {
            Some(p) => if p != cur.last() {
                r.push(cur.last().id)
            } else {
                r
            },
            None => r,
        }
    }
}

pub open spec fn has_code(b: Seq<IssueV>, code: Seq<char>) -> bool {
    exists|i: int| 0 <= i < b.len() && (#[trigger] b[i]).code == code
}

/// Codes of the issues of `a` that `b` lacks, in order.
pub open spec fn codes_missing(a: Seq<IssueV>, b: Seq<IssueV>) -> Seq<Seq<char>>
    decreases a.len(),
{
    if a.len() == 0 {
        Seq::empty()
    } else {
        let r = codes_missing(a.drop_last(), b);
        if has_code(b, a.last().code) {
            r
        } else {
            r.push(a.last().code)
        }
    }
}

pub open spec fn strings_view(v: Seq<String>) -> Seq<Seq<char>> {
    v.map_values(|s: String| s@)
}

fn nodes_equal(a: &Node, b: &Node) -> (r: bool)
    ensures
        r == (a@ == b@),
{
    if !str_eq(a.id.as_str(), b.id.as_str()) || a.node_type != b.node_type || !str_eq(
        a.label.as_str(),
        b.label.as_str(),
    ) || a.status != b.status {
        return false;
    }
    let x = &a.metadata;
    let y = &b.metadata;
    proof {
        lemma_entries_view(*x, x.len() as nat);
        lemma_entries_view(*y, y.len() as nat);
    }
    if x.len() != y.len() {
        assert(entries_view(*x).len() != entries_view(*y).len());
        return false;
    }
    let mut i: usize = 0;
    while i < x.len()
        invariant
            *x == a.metadata,
            *y == b.metadata,
            x.len() == y.len(),
            i <= x.len(),
            entries_view(*x).len() == x.len(),
            entries_view(*y).len() == y.len(),
            forall|j: int| 0 <= j < x.len() ==> #[trigger] entries_view(*x)[j] == (x[j].0@, x[j].1@),
            forall|j: int| 0 <= j < y.len() ==> #[trigger] entries_view(*y)[j] == (y[j].0@, y[j].1@),
            forall|j: int| 0 <= j < i ==> entries_view(*x)[j] == entries_view(*y)[j],
        decreases x.len() - i,
    {
        if !str_eq(x[i].0.as_str(), y[i].0.as_str()) || !json_eq(&x[i].1, &y[i].1) {
            assert(entries_view(*x)[i as int] != entries_view(*y)[i as int]);
            return false;
        }
        i += 1;
    }
    assert(entries_view(*x) =~= entries_view(*y));
    true
}

fn missing_ids(a: &Vec<Node>, b: &Vec<Node>) -> (r: Vec<String>)
    ensures
        strings_view(r@) == ids_missing(nodes_view(a@), nodes_view(b@)),
{
    let ghost av = nodes_view(a@);
    let mut out: Vec<String> = Vec::new();
    let mut i: usize = 0;
    assert(strings_view(out@) =~= ids_missing(av.take(0), nodes_view(b@)));
    while i < a.len()
        invariant
            av == nodes_view(a@),
            i <= a.len(),
            strings_view(out@) == ids_missing(av.take(i as int), nodes_view(b@)),
        decreases a.len() - i,
    {
        assert(av.take(i + 1).drop_last() =~= av.take(i as int));
        assert(av.take(i + 1).last() == a@[i as int]@);
        if !any_node(b, a[i].id.as_str()) {
            out.push(a[i].id.clone());
        }
        i += 1;
        assert(strings_view(out@) =~= ids_missing(av.take(i as int), nodes_view(b@)));
    }
    assert(av.take(a.len() as int) =~= av);
    out
}

fn find_node<'a>(b: &'a Vec<Node>, id: &str) -> (r: Option<&'a Node>)
    ensures
        first_node(nodes_view(b@), id@) == (match r {
            Some(n) => Some(n@),
            None => None::<NodeV>,
        }),
{
    let ghost bv = nodes_view(b@);
    assert(bv.skip(0) =~= bv);
    let mut i: usize = 0;
    while i < b.len()
        invariant
            bv == nodes_view(b@),
            i <= b.len(),
            first_node(bv, id@) == first_node(bv.skip(i as int), id@),
        decreases b.len() - i,
    {
        assert(bv.skip(i as int)[0] == b@[i as int]@);
        assert(bv.skip(i as int).drop_first() =~= bv.skip(i + 1));
        if str_eq(b[i].id.as_str(), id) {
            return Some(&b[i]);
        }
        i += 1;
    }
    None
}

fn changed_ids(cur: &Vec<Node>, prev: &Vec<Node>) -> (r: Vec<String>)
    ensures
        strings_view(r@) == ids_changed(nodes_view(cur@), nodes_view(prev@)),
{
    let ghost cv = nodes_view(cur@);
    let mut out: Vec<String> = Vec::new();
    let mut i: usize = 0;
    assert(strings_view(out@) =~= ids_changed(cv.take(0), nodes_view(prev@)));
    while i < cur.len()
        invariant
            cv == nodes_view(cur@),
            i <= cur.len(),
            strings_view(out@) == ids_changed(cv.take(i as int), nodes_view(prev@)),
        decreases cur.len() - i,
    {
        assert(cv.take(i + 1).drop_last() =~= cv.take(i as int));
        assert(cv.take(i + 1).last() == cur@[i as int]@);
        match find_node(prev, cur[i].id.as_str()) {
            Some(p) => {
                if !nodes_equal(p, &cur[i]) {
                    out.push(cur[i].id.clone());
                }
            },
            None => {},
        }
        i += 1;
        assert(strings_view(out@) =~= ids_changed(cv.take(i as int), nodes_view(prev@)));
    }
    assert(cv.take(cur.len() as int) =~= cv);
    out
}

fn any_code(b: &Vec<crate::models::Issue>, code: &str) -> (r: bool)
    ensures
        r == has_code(issues_view(b@), code@),
{
    let ghost bv = issues_view(b@);
    let mut i: usize = 0;
    while i < b.len()
        invariant
            bv == issues_view(b@),
            i <= b.len(),
            forall|j: int| 0 <= j < i ==> (#[trigger] bv[j]).code != code@,
        decreases b.len() - i,
    {
        if str_eq(b[i].code.as_str(), code) {
            assert(bv[i as int].code == code@);
            return true;
        }
        i += 1;
    }
    false
}

fn missing_codes(a: &Vec<crate::models::Issue>, b: &Vec<crate::models::Issue>) -> (r: Vec<String>)
    ensures
        strings_view(r@) == codes_missing(issues_view(a@), issues_view(b@)),
{
    let ghost av = issues_view(a@);
    let mut out: Vec<String> = Vec::new();
    let mut i: usize = 0;
    assert(strings_view(out@) =~= codes_missing(av.take(0), issues_view(b@)));
    while i < a.len()
        invariant
            av == issues_view(a@),
            i <= a.len(),
            strings_view(out@) == codes_missing(av.take(i as int), issues_view(b@)),
        decreases a.len() - i,
    {
        assert(av.take(i + 1).drop_last() =~= av.take(i as int));
        assert(av.take(i + 1).last() == a@[i as int]@);
        if !any_code(b, a[i].code.as_str()) {
            out.push(a[i].code.clone());
        }
        i += 1;
        assert(strings_view(out@) =~= codes_missing(av.take(i as int), issues_view(b@)));
    }
    assert(av.take(a.len() as int) =~= av);
    out
}

/// The differences from `prev` to `current`: nodes by id, issues by code.
pub fn diff_scans(prev: &SystemState, current: &SystemState) -> (r: ScanDiff)
    ensures
        strings_view(r.added_nodes@) == ids_missing(current@.nodes, prev@.nodes),
        strings_view(r.removed_nodes@) == ids_missing(prev@.nodes, current@.nodes),
        strings_view(r.changed_nodes@) == ids_changed(current@.nodes, prev@.nodes),
        strings_view(r.added_issues@) == codes_missing(current@.issues, prev@.issues),
        strings_view(r.removed_issues@) == codes_missing(prev@.issues, current@.issues),
{
    ScanDiff {
        added_nodes: missing_ids(&current.nodes, &prev.nodes),
        removed_nodes: missing_ids(&prev.nodes, &current.nodes),
        changed_nodes: changed_ids(&current.nodes, &prev.nodes),
        added_issues: missing_codes(&current.issues, &prev.issues),
        removed_issues: missing_codes(&prev.issues, &current.issues),
    }
}

/// The diff of the last two of the recorded scans, oldest first; none with fewer
/// than two.
pub fn diff_latest(states: &Vec<SystemState>) -> (r: Option<ScanDiff>)
    ensures
        states.len() < 2 <==> r is None,
        states.len() >= 2 ==> ({
            let d = r->0;
            let prev = states@[states.len() - 2]@;
            let cur = states@[states.len() - 1]@;
            &&& strings_view(d.added_nodes@) == ids_missing(cur.nodes, prev.nodes)
            &&& strings_view(d.removed_nodes@) == ids_missing(prev.nodes, cur.nodes)
            &&& strings_view(d.changed_nodes@) == ids_changed(cur.nodes, prev.nodes)
            &&& strings_view(d.added_issues@) == codes_missing(cur.issues, prev.issues)
            &&& strings_view(d.removed_issues@) == codes_missing(prev.issues, cur.issues)
        }),
{
    if states.len() < 2 {
        return None;
    }
    let n = states.len();
    Some(diff_scans(&states[n - 2], &states[n - 1]))
}

} // verus!
