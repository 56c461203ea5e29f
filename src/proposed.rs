//! The proposed state: a copy of the current state with a command's predicted effects.
use crate::command::ParsedCommand;
use crate::json::{entries_view, lemma_entries_view, Json, JsonV};
use crate::models::{
    copy_edges, copy_issues, copy_nodes, nodes_view, Node, NodeV, StateV, Status, SystemState,
};
use crate::state::{fingerprint_of, normalized};
use crate::text::str_eq;
use vstd::prelude::*;

verus! {

/// Index of the first entry under key `k`, or -1.
pub open spec fn key_index(e: Seq<(Seq<char>, JsonV)>, k: Seq<char>, i: int) -> int
    decreases e.len() - i,
{
    if i < 0 || i >= e.len() {
        -1
    } else if e[i].0 == k {
        i
    } else {
        key_index(e, k, i + 1)
    }
}

/// Entries with `k` set to `v`: the first entry under `k` replaced, or a new one appended.
pub open spec fn set_key(e: Seq<(Seq<char>, JsonV)>, k: Seq<char>, v: JsonV) -> Seq<(Seq<char>, JsonV)> {
    let i = key_index(e, k, 0);
    if i < 0 {
        e.push((k, v))
    } else {
        e.update(i, (k, v))
    }
}

proof fn lemma_key_index(e: Seq<(Seq<char>, JsonV)>, k: Seq<char>, i: int)
    requires
        0 <= i,
    ensures
        key_index(e, k, i) == -1 || (i <= key_index(e, k, i) < e.len()),
    decreases e.len() - i,
{
    if i < e.len() && e[i].0 != k {
        lemma_key_index(e, k, i + 1);
    }
}

/// Sets the entry under `key` to `value`.
pub fn set_entry(entries: &mut Vec<(String, Json)>, key: &str, value: Json)
    ensures
        entries_view(*final(entries)) == set_key(entries_view(*old(entries)), key@, value@),
{
    let ghost ev = entries_view(*entries);
    proof {
        lemma_entries_view(*entries, entries.len() as nat);
        lemma_key_index(ev, key@, 0);
    }
    let mut i: usize = 0;
    while i < entries.len()
        invariant
            ev == entries_view(*entries),
            ev == entries_view(*old(entries)),
            ev.len() == entries.len(),
            forall|j: int| 0 <= j < entries.len() ==> #[trigger] ev[j] == (entries[j].0@, entries[j].1@),
            i <= entries.len(),
            key_index(ev, key@, 0) == key_index(ev, key@, i as int),
        decreases entries.len() - i,
    {
        if str_eq(entries[i].0.as_str(), key) {
            assert(ev[i as int].0 == key@);
            assert(key_index(ev, key@, i as int) == i);
            let ghost v = value@;
            assert(set_key(ev, key@, v) == ev.update(i as int, (key@, v)));
            entries.set(i, (String::from_str(key), value));
            proof {
                lemma_entries_view(*entries, entries.len() as nat);
                assert(entries_view(*entries) =~= ev.update(i as int, (key@, v)));
            }
            return;
        }
        i += 1;
    }
    let ghost v = value@;
    entries.push((String::from_str(key), value));
    proof {
        lemma_entries_view(*entries, entries.len() as nat);
        assert(entries_view(*entries) =~= ev.push((key@, v)));
    }
}

/// A node marked active with one metadata entry set.
pub open spec fn mark(n: NodeV, k: Seq<char>, v: JsonV) -> NodeV {
    NodeV { status: Status::Active, metadata: set_key(n.metadata, k, v), ..n }
}

/// Index of the first node with this id, or -1.
pub open spec fn node_index(nodes: Seq<NodeV>, id: Seq<char>, i: int) -> int
    decreases nodes.len() - i,
{
    if i < 0 || i >= nodes.len() {
        -1
    } else if nodes[i].id == id {
        i
    } else {
        node_index(nodes, id, i + 1)
    }
}

/// The nodes with the first one under `id` marked.
pub open spec fn mark_first(nodes: Seq<NodeV>, id: Seq<char>, k: Seq<char>, v: JsonV) -> Seq<NodeV> {
    let i = node_index(nodes, id, 0);
    if i < 0 {
        nodes
    } else {
        nodes.update(i, mark(nodes[i], k, v))
    }
}

proof fn lemma_node_index(nodes: Seq<NodeV>, id: Seq<char>, i: int)
    requires
        0 <= i,
    ensures
        node_index(nodes, id, i) == -1 || (i <= node_index(nodes, id, i) < nodes.len()),
    decreases nodes.len() - i,
{
    if i < nodes.len() && nodes[i].id != id {
        lemma_node_index(nodes, id, i + 1);
    }
}

fn mark_node(nodes: &mut Vec<Node>, id: &str, key: &str, value: Json)
    ensures
        nodes_view(final(nodes)@) == mark_first(nodes_view(old(nodes)@), id@, key@, value@),
{
    let ghost nv = nodes_view(nodes@);
    proof {
        lemma_node_index(nv, id@, 0);
    }
    let mut i: usize = 0;
    while i < nodes.len()
        invariant
            nv == nodes_view(nodes@),
            nv == nodes_view(old(nodes)@),
            i <= nodes.len(),
            node_index(nv, id@, 0) == node_index(nv, id@, i as int),
        decreases nodes.len() - i,
    {
        if str_eq(nodes[i].id.as_str(), id) {
            assert(nv[i as int].id == id@);
            assert(nv[i as int] == nodes@[i as int]@);
            assert(node_index(nv, id@, i as int) == i);
            let mut n = nodes[i].duplicate();
            n.status = Status::Active;
            let ghost v = value@;
            set_entry(&mut n.metadata, key, value);
            assert(n@ == mark(nv[i as int], key@, v));
            nodes.set(i, n);
            assert(nodes_view(nodes@) =~= mark_first(nv, id@, key@, v));
            return;
        }
        i += 1;
    }
}

/// A deep copy of a state, normalized and with its fingerprint recomputed.
pub fn clone_state(source: &SystemState) -> (r: SystemState)
    ensures
        r@ == (StateV {
            fingerprint: fingerprint_of(normalized(source@)),
            ..normalized(source@)
        }),
{
    let mut cloned = SystemState {
        nodes: copy_nodes(&source.nodes),
        edges: copy_edges(&source.edges),
        issues: copy_issues(&source.issues),
        version: source.version.clone(),
        timestamp: source.timestamp.clone(),
        fingerprint: source.fingerprint.clone(),
    };
    cloned.refresh_fingerprint();
    cloned
}

/// The nodes after a command's predicted effects: a port-8000 binding marks the
/// `port8000` node active with `predicted_bind`, a Docker verb marks the `docker` node
/// active with `predict_used` set to the command.
pub open spec fn predicted_nodes(nodes: Seq<NodeV>, ports: Seq<u16>, docker: bool, raw: Seq<char>) -> Seq<NodeV> {
    let n1 = if ports.contains(8000u16) {
        mark_first(nodes, "port8000"@, "predicted_bind"@, JsonV::Bool(true))
    } else {
        nodes
    };
    if docker {
        mark_first(n1, "docker"@, "predict_used"@, JsonV::Str(raw))
    } else {
        n1
    }
}

pub open spec fn uses_docker(p: ParsedCommand) -> bool {
    p.docker_compose || p.docker_run || p.docker_build
}

/// Applies the predicted effects of `parsed` to `proposed`; edges, issues and the
/// other fields stay as they are.
pub fn apply_predicted_changes(proposed: SystemState, parsed: &ParsedCommand) -> (r: SystemState)
    ensures
        r@ == (StateV {
            nodes: predicted_nodes(proposed@.nodes, parsed.ports@, uses_docker(*parsed), parsed.raw@),
            ..proposed@
        }),
{
    let mut proposed = proposed;
    let mut binds = false;
    let mut i: usize = 0;
    while i < parsed.ports.len()
        invariant
            i <= parsed.ports.len(),
            binds == exists|j: int| 0 <= j < i && parsed.ports@[j] == 8000u16,
        decreases parsed.ports.len() - i,
    {
        if parsed.ports[i] == 8000 {
            binds = true;
        }
        i += 1;
    }
    assert(binds == parsed.ports@.contains(8000u16));
    if binds {
        mark_node(&mut proposed.nodes, "port8000", "predicted_bind", Json::Bool(true));
    }
    if parsed.docker_compose || parsed.docker_run || parsed.docker_build {
        mark_node(&mut proposed.nodes, "docker", "predict_used", Json::Str(parsed.raw.clone()));
    }
    proposed
}

} // verus!
