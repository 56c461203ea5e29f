//! The state snapshot: nodes, edges and issues, each with a view over character sequences.
use crate::json::{copy_entries, entries_view, Json, JsonV};
use vstd::prelude::*;

verus! {

/// The contract version every snapshot carries.
pub const CONTRACT_VERSION: &'static str = "1.0.0";

/// The timestamp used by machine-readable output envelopes.
pub const DETERMINISTIC_TIMESTAMP: &'static str = "1970-01-01T00:00:00Z";

#[derive(Debug, Clone, Copy, PartialEq, Eq, Structural)]
pub enum NodeType {
    Os,
    Service,
    Runtime,
    Application,
    Port,
    File,
    Python,
    Postgres,
    Mysql,
    Redis,
    Gpu,
    DockerImages,
}

/// Whether a component was observed. For port nodes the polarity is inverted:
/// `Active` means the port is bound, that is unavailable.
#[derive(Debug, Clone, Copy, PartialEq, Eq, Structural)]
pub enum Status {
    Active,
    Inactive,
    Conflict,
}

#[allow(non_camel_case_types, clippy::upper_case_acronyms)]
#[derive(Debug, Clone, Copy, PartialEq, Eq, Structural)]
pub enum Relation {
    REQUIRES,
    BINDS,
    CONFLICTS,
}

#[derive(Debug, Clone, Copy, PartialEq, Eq, Structural)]
pub enum Severity {
    Critical,
    Warning,
}

#[derive(Debug, Clone)]
pub struct Node {
    pub id: String,
    pub node_type: NodeType,
    pub label: String,
    pub status: Status,
    pub metadata: Vec<(String, Json)>,
}

#[derive(Debug, Clone)]
pub struct Edge {
    pub from: String,
    pub to: String,
    pub relation: Relation,
}

#[derive(Debug, Clone)]
pub struct Issue {
    pub code: String,
    pub severity: Severity,
    pub title: String,
    pub description: String,
    pub suggestion: String,
}

#[derive(Debug, Clone)]
pub struct SystemState {
    pub nodes: Vec<Node>,
    pub edges: Vec<Edge>,
    pub issues: Vec<Issue>,
    pub version: String,
    pub timestamp: String,
    pub fingerprint: String,
}

pub struct NodeV {
    pub id: Seq<char>,
    pub node_type: NodeType,
    pub label: Seq<char>,
    pub status: Status,
    pub metadata: Seq<(Seq<char>, JsonV)>,
}

pub struct EdgeV {
    pub from: Seq<char>,
    pub to: Seq<char>,
    pub relation: Relation,
}

pub struct IssueV {
    pub code: Seq<char>,
    pub severity: Severity,
    pub title: Seq<char>,
    pub description: Seq<char>,
    pub suggestion: Seq<char>,
}

pub struct StateV {
    pub nodes: Seq<NodeV>,
    pub edges: Seq<EdgeV>,
    pub issues: Seq<IssueV>,
    pub version: Seq<char>,
    pub timestamp: Seq<char>,
    pub fingerprint: Seq<char>,
}

impl View for Node {
    type V = NodeV;

    open spec fn view(&self) -> NodeV {
        NodeV {
            id: self.id@,
            node_type: self.node_type,
            label: self.label@,
            status: self.status,
            metadata: entries_view(self.metadata),
        }
    }
}

impl View for Edge {
    type V = EdgeV;

    open spec fn view(&self) -> EdgeV {
        EdgeV { from: self.from@, to: self.to@, relation: self.relation }
    }
}

impl View for Issue {
    type V = IssueV;

    open spec fn view(&self) -> IssueV {
        IssueV {
            code: self.code@,
            severity: self.severity,
            title: self.title@,
            description: self.description@,
            suggestion: self.suggestion@,
        }
    }
}

pub open spec fn nodes_view(v: Seq<Node>) -> Seq<NodeV> {
    v.map_values(|n: Node| n@)
}

pub open spec fn edges_view(v: Seq<Edge>) -> Seq<EdgeV> {
    v.map_values(|e: Edge| e@)
}

pub open spec fn issues_view(v: Seq<Issue>) -> Seq<IssueV> {
    v.map_values(|i: Issue| i@)
}

impl View for SystemState {
    type V = StateV;

    open spec fn view(&self) -> StateV {
        StateV {
            nodes: nodes_view(self.nodes@),
            edges: edges_view(self.edges@),
            issues: issues_view(self.issues@),
            version: self.version@,
            timestamp: self.timestamp@,
            fingerprint: self.fingerprint@,
        }
    }
}

impl Node {
    /// A copy with the same view.
    pub fn duplicate(&self) -> (r: Node)
        ensures
            r@ == self@,
    {
        Node {
            id: self.id.clone(),
            node_type: self.node_type,
            label: self.label.clone(),
            status: self.status,
            metadata: copy_entries(&self.metadata),
        }
    }
}

impl Edge {
    pub fn new(from: &str, to: &str, relation: Relation) -> (r: Edge)
        ensures
            r@ == (EdgeV { from: from@, to: to@, relation }),
    {
        Edge { from: String::from_str(from), to: String::from_str(to), relation }
    }

    /// A copy with the same view.
    pub fn duplicate(&self) -> (r: Edge)
        ensures
            r@ == self@,
    {
        Edge { from: self.from.clone(), to: self.to.clone(), relation: self.relation }
    }
}

impl Issue {
    pub fn new(code: &str, severity: Severity, title: &str, description: String, suggestion: &str) -> (r: Issue)
        ensures
            r@ == (IssueV {
                code: code@,
                severity,
                title: title@,
                description: description@,
                suggestion: suggestion@,
            }),
    {
        Issue {
            code: String::from_str(code),
            severity,
            title: String::from_str(title),
            description,
            suggestion: String::from_str(suggestion),
        }
    }

    /// A copy with the same view.
    pub fn duplicate(&self) -> (r: Issue)
        ensures
            r@ == self@,
    {
        Issue {
            code: self.code.clone(),
            severity: self.severity,
            title: self.title.clone(),
            description: self.description.clone(),
            suggestion: self.suggestion.clone(),
        }
    }
}

pub fn copy_nodes(v: &Vec<Node>) -> (r: Vec<Node>)
    ensures
        nodes_view(r@) == nodes_view(v@),
{
    let mut out: Vec<Node> = Vec::new();
    let mut i: usize = 0;
    while i < v.len()
        invariant
            i <= v.len(),
            out.len() == i,
            forall|k: int| 0 <= k < i ==> out@[k]@ == v@[k]@,
        decreases v.len() - i,
    {
        out.push(v[i].duplicate());
        i += 1;
    }
    assert(nodes_view(out@) =~= nodes_view(v@));
    out
}

pub fn copy_edges(v: &Vec<Edge>) -> (r: Vec<Edge>)
    ensures
        edges_view(r@) == edges_view(v@),
{
    let mut out: Vec<Edge> = Vec::new();
    let mut i: usize = 0;
    while i < v.len()
        invariant
            i <= v.len(),
            out.len() == i,
            forall|k: int| 0 <= k < i ==> out@[k]@ == v@[k]@,
        decreases v.len() - i,
    {
        out.push(v[i].duplicate());
        i += 1;
    }
    assert(edges_view(out@) =~= edges_view(v@));
    out
}

pub fn copy_issues(v: &Vec<Issue>) -> (r: Vec<Issue>)
    ensures
        issues_view(r@) == issues_view(v@),
{
    let mut out: Vec<Issue> = Vec::new();
    let mut i: usize = 0;
    while i < v.len()
        invariant
            i <= v.len(),
            out.len() == i,
            forall|k: int| 0 <= k < i ==> out@[k]@ == v@[k]@,
        decreases v.len() - i,
    {
        out.push(v[i].duplicate());
        i += 1;
    }
    assert(issues_view(out@) =~= issues_view(v@));
    out
}

} // verus!
