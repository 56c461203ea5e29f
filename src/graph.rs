//! Structural edges derived from which nodes a state holds.
use crate::models::{
    copy_edges, copy_nodes, edges_view, nodes_view, Edge, EdgeV, Node, NodeV, Relation, Status,
    SystemState,
};
use crate::encode::dec;
use crate::oracle::decimal;
use crate::text::str_eq;
use vstd::prelude::*;

verus! {

pub open spec fn has_node(nodes: Seq<NodeV>, id: Seq<char>) -> bool {
    exists|i: int| 0 <= i < nodes.len() && (#[trigger] nodes[i]).id == id
}

pub open spec fn has_link(edges: Seq<EdgeV>, from: Seq<char>, to: Seq<char>) -> bool {
    exists|i: int| 0 <= i < edges.len() && (#[trigger] edges[i]).from == from && edges[i].to == to
}

pub open spec fn edge_if(b: bool, from: Seq<char>, to: Seq<char>, relation: Relation) -> Seq<EdgeV> {
    if b {
        seq![EdgeV { from, to, relation }]
    } else {
        Seq::empty()
    }
}

/// The edges that `derive_edges` appends, in order.
pub open spec fn derived_edges(nodes: Seq<NodeV>, edges: Seq<EdgeV>) -> Seq<EdgeV> {
    let pg = has_node(nodes, "postgres"@);
    let rd = has_node(nodes, "redis"@);
    let py = has_node(nodes, "python"@);
    let di = has_node(nodes, "docker_images"@);
    edge_if(!has_link(edges, "docker"@, "port8000"@), "docker"@, "port8000"@, Relation::BINDS)
        + edge_if(pg, "postgres"@, "os"@, Relation::REQUIRES) + edge_if(
        pg && has_node(nodes, "port5432"@),
        "postgres"@,
        "port5432"@,
        Relation::BINDS,
    ) + edge_if(rd, "redis"@, "os"@, Relation::REQUIRES) + edge_if(
        rd && has_node(nodes, "port6379"@),
        "redis"@,
        "port6379"@,
        Relation::BINDS,
    ) + edge_if(has_node(nodes, "gpu"@), "gpu"@, "os"@, Relation::REQUIRES) + edge_if(
        di,
        "docker_images"@,
        "docker"@,
        Relation::REQUIRES,
    ) + edge_if(py, "python"@, "os"@, Relation::REQUIRES) + edge_if(
        py && di,
        "python"@,
        "docker_images"@,
        Relation::REQUIRES,
    )
}

pub fn any_node(nodes: &Vec<Node>, id: &str) -> (r: bool)
    ensures
        r == has_node(nodes_view(nodes@), id@),
{
    let ghost nv = nodes_view(nodes@);
    let mut i: usize = 0;
    while i < nodes.len()
        invariant
            nv == nodes_view(nodes@),
            i <= nodes.len(),
            forall|j: int| 0 <= j < i ==> (#[trigger] nv[j]).id != id@,
        decreases nodes.len() - i,
    {
        if str_eq(nodes[i].id.as_str(), id) {
            assert(nv[i as int].id == id@);
            return true;
        }
        i += 1;
    }
    false
}

fn any_link(edges: &Vec<Edge>, from: &str, to: &str) -> (r: bool)
    ensures
        r == has_link(edges_view(edges@), from@, to@),
{
    let ghost ev = edges_view(edges@);
    let mut i: usize = 0;
    while i < edges.len()
        invariant
            ev == edges_view(edges@),
            i <= edges.len(),
            forall|j: int| 0 <= j < i ==> !((#[trigger] ev[j]).from == from@ && ev[j].to == to@),
        decreases edges.len() - i,
    {
        if str_eq(edges[i].from.as_str(), from) && str_eq(edges[i].to.as_str(), to) {
            assert(ev[i as int].from == from@ && ev[i as int].to == to@);
            return true;
        }
        i += 1;
    }
    false
}

fn add_edge(edges: &mut Vec<Edge>, b: bool, from: &str, to: &str, relation: Relation)
    ensures
        edges_view(final(edges)@) == edges_view(old(edges)@) + edge_if(b, from@, to@, relation),
{
    let ghost before = edges_view(edges@);
    if b {
        edges.push(Edge::new(from, to, relation));
    }
    assert(edges_view(edges@) =~= before + edge_if(b, from@, to@, relation));
}

/// The edges implied by the nodes present, given the edges already there.
pub fn implied_edges(nodes: &Vec<Node>, edges: &Vec<Edge>) -> (r: Vec<Edge>)
    ensures
        edges_view(r@) == derived_edges(nodes_view(nodes@), edges_view(edges@)),
{
    let linked = any_link(edges, "docker", "port8000");
    let pg = any_node(nodes, "postgres");
    let p5432 = any_node(nodes, "port5432");
    let rd = any_node(nodes, "redis");
    let p6379 = any_node(nodes, "port6379");
    let gpu = any_node(nodes, "gpu");
    let di = any_node(nodes, "docker_images");
    let py = any_node(nodes, "python");
    let mut out: Vec<Edge> = Vec::new();
    assert(edges_view(out@) =~= Seq::<EdgeV>::empty());
    add_edge(&mut out, !linked, "docker", "port8000", Relation::BINDS);
    add_edge(&mut out, pg, "postgres", "os", Relation::REQUIRES);
    add_edge(&mut out, pg && p5432, "postgres", "port5432", Relation::BINDS);
    add_edge(&mut out, rd, "redis", "os", Relation::REQUIRES);
    add_edge(&mut out, rd && p6379, "redis", "port6379", Relation::BINDS);
    add_edge(&mut out, gpu, "gpu", "os", Relation::REQUIRES);
    add_edge(&mut out, di, "docker_images", "docker", Relation::REQUIRES);
    add_edge(&mut out, py, "python", "os", Relation::REQUIRES);
    add_edge(&mut out, py && di, "python", "docker_images", Relation::REQUIRES);
    assert(edges_view(out@) =~= derived_edges(nodes_view(nodes@), edges_view(edges@)));
    out
}

/// Adds the structural edges implied by the nodes present. Only the docker to port8000
/// link is guarded against duplication, so a state should go through this once.
pub fn derive_edges(state: &mut SystemState)
    ensures
        final(state)@.edges == old(state)@.edges + derived_edges(old(state)@.nodes, old(state)@.edges),
        final(state)@.nodes == old(state)@.nodes,
        final(state)@.issues == old(state)@.issues,
        final(state)@.version == old(state)@.version,
        final(state)@.timestamp == old(state)@.timestamp,
        final(state)@.fingerprint == old(state)@.fingerprint,
{
    let ghost e0 = state.edges@;
    let mut extra = implied_edges(&state.nodes, &state.edges);
    let ghost x = extra@;
    state.edges.append(&mut extra);
    assert(state.edges@ == e0 + x);
    assert(edges_view(e0 + x) =~= edges_view(e0) + edges_view(x));
}

pub open spec fn status_count(nodes: Seq<NodeV>, s: Status) -> nat
    decreases nodes.len(),
{
    if nodes.len() == 0 {
        0
    } else {
        status_count(nodes.drop_last(), s) + if nodes.last().status == s {
            1nat
        } else {
            0nat
        }
    }
}

/// How many nodes have status `s`.
pub fn count_status(nodes: &Vec<Node>, s: Status) -> (r: usize)
    ensures
        r == status_count(nodes_view(nodes@), s),
{
    let ghost nv = nodes_view(nodes@);
    let mut n: usize = 0;
    let mut i: usize = 0;
    while i < nodes.len()
        invariant
            nv == nodes_view(nodes@),
            i <= nodes.len(),
            n == status_count(nv.take(i as int), s),
            n <= i,
        decreases nodes.len() - i,
    {
        assert(nv.take(i + 1).drop_last() =~= nv.take(i as int));
        if nodes[i].status == s {
            n += 1;
        }
        i += 1;
    }
    assert(nv.take(nodes.len() as int) =~= nv);
    n
}

/// The one-line summary of a state.
pub open spec fn summary_text(v: crate::models::StateV) -> Seq<char> {
    "Nodes: active="@ + dec(status_count(v.nodes, Status::Active) as u64) + ", inactive="@ + dec(
        status_count(v.nodes, Status::Inactive) as u64,
    ) + ", conflict="@ + dec(status_count(v.nodes, Status::Conflict) as u64)
        + ". Issues detected: "@ + dec(v.issues.len() as u64) + "."@
}

/// One-line summary of node statuses and the number of issues.
pub fn summarize(state: &SystemState) -> (r: String)
    ensures
        r@ == summary_text(state@),
{
    let mut out = String::from_str("Nodes: active=");
    out.append(decimal(count_status(&state.nodes, Status::Active) as u64).as_str());
    out.append(", inactive=");
    out.append(decimal(count_status(&state.nodes, Status::Inactive) as u64).as_str());
    out.append(", conflict=");
    out.append(decimal(count_status(&state.nodes, Status::Conflict) as u64).as_str());
    out.append(". Issues detected: ");
    out.append(decimal(state.issues.len() as u64).as_str());
    out.append(".");
    assert(out@ =~= summary_text(state@));
    out
}

/// The nodes and edges of a state, on their own.
pub struct DependencyGraph {
    pub nodes: Vec<Node>,
    pub edges: Vec<Edge>,
}

impl DependencyGraph {
    pub fn from_state(state: &SystemState) -> (r: DependencyGraph)
        ensures
            nodes_view(r.nodes@) == state@.nodes,
            edges_view(r.edges@) == state@.edges,
    {
        DependencyGraph { nodes: copy_nodes(&state.nodes), edges: copy_edges(&state.edges) }
    }

    /// Position of the node with this id, if any.
    pub fn node_index(&self, id: &str) -> (r: Option<usize>)
        ensures
            match r {
                Some(i) => i < self.nodes.len() && self.nodes@[i as int].id@ == id@,
                None => !has_node(nodes_view(self.nodes@), id@),
            },
    {
        let ghost nv = nodes_view(self.nodes@);
        let mut i: usize = 0;
        while i < self.nodes.len()
            invariant
                nv == nodes_view(self.nodes@),
                i <= self.nodes.len(),
                forall|j: int| 0 <= j < i ==> (#[trigger] nv[j]).id != id@,
            decreases self.nodes.len() - i,
        {
            if str_eq(self.nodes[i].id.as_str(), id) {
                return Some(i);
            }
            i += 1;
        }
        None
    }
}

} // verus!
