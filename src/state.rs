//! Normalization of a state into its canonical order.
use crate::encode::{enc, to_text};
use crate::json::{
    copy_entries, entries_view, lemma_entries_view, lemma_list_view, list_view, push_entry,
    push_item, Json, JsonV,
};
use crate::models::{
    edges_view, issues_view, nodes_view, Edge, EdgeV, Issue, IssueV, Node, NodeType, NodeV,
    Relation, Severity, StateV, Status, SystemState, CONTRACT_VERSION,
};
use crate::order::{
    antisymmetric, isort, ins_pos, lemma_isort_permutation, lemma_seq_le_antisym,
    lemma_seq_le_total, lemma_seq_le_trans, seq_le, str_le, total, transitive,
};
use crate::text::{chars_of, concat, lower_of, str_eq, to_lower};
use vstd::prelude::*;

verus! {

pub open spec fn node_le(a: NodeV, b: NodeV) -> bool {
    seq_le(lower_of(a.id), lower_of(b.id))
}

/// Rank of a relation; it orders relations as their names `BINDS`, `CONFLICTS`,
/// `REQUIRES` order as strings.
pub open spec fn rel_rank(r: Relation) -> int {
    match r {
        Relation::BINDS => 0,
        Relation::CONFLICTS => 1,
        Relation::REQUIRES => 2,
    }
}

pub open spec fn edge_le(a: EdgeV, b: EdgeV) -> bool {
    if a.from != b.from {
        seq_le(a.from, b.from)
    } else if a.to != b.to {
        seq_le(a.to, b.to)
    } else {
        rel_rank(a.relation) <= rel_rank(b.relation)
    }
}

pub open spec fn issue_le(a: IssueV, b: IssueV) -> bool {
    seq_le(a.code, b.code)
}

pub open spec fn node_order() -> spec_fn(NodeV, NodeV) -> bool {
    |a: NodeV, b: NodeV| node_le(a, b)
}

pub open spec fn edge_order() -> spec_fn(EdgeV, EdgeV) -> bool {
    |a: EdgeV, b: EdgeV| edge_le(a, b)
}

pub open spec fn issue_order() -> spec_fn(IssueV, IssueV) -> bool {
    |a: IssueV, b: IssueV| issue_le(a, b)
}

pub proof fn lemma_node_order()
    ensures
        total(node_order()),
        transitive(node_order()),
{
    assert forall|a: NodeV, b: NodeV| #[trigger] node_order()(a, b) || node_order()(b, a) by {
        lemma_seq_le_total(lower_of(a.id), lower_of(b.id));
    }
    assert forall|a: NodeV, b: NodeV, c: NodeV| #[trigger]
        node_order()(a, b) && #[trigger] node_order()(b, c) implies node_order()(a, c) by {
        lemma_seq_le_trans(lower_of(a.id), lower_of(b.id), lower_of(c.id));
    }
}

pub proof fn lemma_issue_order()
    ensures
        total(issue_order()),
        transitive(issue_order()),
{
    assert forall|a: IssueV, b: IssueV| #[trigger] issue_order()(a, b) || issue_order()(b, a) by {
        lemma_seq_le_total(a.code, b.code);
    }
    assert forall|a: IssueV, b: IssueV, c: IssueV| #[trigger]
        issue_order()(a, b) && #[trigger] issue_order()(b, c) implies issue_order()(a, c) by {
        lemma_seq_le_trans(a.code, b.code, c.code);
    }
}

pub proof fn lemma_edge_order()
    ensures
        total(edge_order()),
        transitive(edge_order()),
        antisymmetric(edge_order()),
{
    assert forall|a: EdgeV, b: EdgeV| #[trigger] edge_order()(a, b) || edge_order()(b, a) by {
        lemma_seq_le_total(a.from, b.from);
        lemma_seq_le_total(a.to, b.to);
    }
    assert forall|a: EdgeV, b: EdgeV, c: EdgeV| #[trigger]
        edge_order()(a, b) && #[trigger] edge_order()(b, c) implies edge_order()(a, c) by {
        if seq_le(a.from, b.from) && seq_le(b.from, c.from) {
            lemma_seq_le_trans(a.from, b.from, c.from);
        }
        if seq_le(a.to, b.to) && seq_le(b.to, c.to) {
            lemma_seq_le_trans(a.to, b.to, c.to);
        }
        if seq_le(a.from, b.from) && seq_le(b.from, a.from) {
            lemma_seq_le_antisym(a.from, b.from);
        }
        if seq_le(b.from, c.from) && seq_le(c.from, b.from) {
            lemma_seq_le_antisym(b.from, c.from);
        }
        if seq_le(a.from, c.from) && seq_le(c.from, a.from) {
            lemma_seq_le_antisym(a.from, c.from);
        }
        if seq_le(a.to, b.to) && seq_le(b.to, a.to) {
            lemma_seq_le_antisym(a.to, b.to);
        }
        if seq_le(b.to, c.to) && seq_le(c.to, b.to) {
            lemma_seq_le_antisym(b.to, c.to);
        }
        if seq_le(a.to, c.to) && seq_le(c.to, a.to) {
            lemma_seq_le_antisym(a.to, c.to);
        }
    }
    assert forall|a: EdgeV, b: EdgeV| #[trigger]
        edge_order()(a, b) && edge_order()(b, a) implies a == b by {
        if a.from != b.from {
            lemma_seq_le_antisym(a.from, b.from);
        } else if a.to != b.to {
            lemma_seq_le_antisym(a.to, b.to);
        }
    }
}

fn node_le_exec(a: &Node, b: &Node) -> (r: bool)
    ensures
        r == node_le(a@, b@),
{
    let x = chars_of(to_lower(a.id.as_str()).as_str());
    let y = chars_of(to_lower(b.id.as_str()).as_str());
    str_le(&x, &y)
}

fn rank(r: Relation) -> (k: u8)
    ensures
        k as int == rel_rank(r),
{
    match r {
        Relation::BINDS => 0,
        Relation::CONFLICTS => 1,
        Relation::REQUIRES => 2,
    }
}

fn edge_le_exec(a: &Edge, b: &Edge) -> (r: bool)
    ensures
        r == edge_le(a@, b@),
{
    let af = chars_of(a.from.as_str());
    let bf = chars_of(b.from.as_str());
    let f1 = str_le(&af, &bf);
    let f2 = str_le(&bf, &af);
    if !(f1 && f2) {
        proof {
            if a@.from == b@.from {
                lemma_seq_le_total(a@.from, b@.from);
            }
        }
        return f1;
    }
    proof {
        lemma_seq_le_antisym(a@.from, b@.from);
    }
    let at = chars_of(a.to.as_str());
    let bt = chars_of(b.to.as_str());
    let t1 = str_le(&at, &bt);
    let t2 = str_le(&bt, &at);
    if !(t1 && t2) {
        proof {
            if a@.to == b@.to {
                lemma_seq_le_total(a@.to, b@.to);
            }
        }
        return t1;
    }
    proof {
        lemma_seq_le_antisym(a@.to, b@.to);
    }
    rank(a.relation) <= rank(b.relation)
}

fn issue_le_exec(a: &Issue, b: &Issue) -> (r: bool)
    ensures
        r == issue_le(a@, b@),
{
    let x = chars_of(a.code.as_str());
    let y = chars_of(b.code.as_str());
    str_le(&x, &y)
}

/// Nodes in canonical order: by lower-cased id, ties kept in the order given.
pub fn sort_nodes(v: &Vec<Node>) -> (r: Vec<Node>)
    ensures
        nodes_view(r@) == isort(nodes_view(v@), node_order()),
{
    let ghost le = node_order();
    let ghost sv = nodes_view(v@);
    let mut out: Vec<Node> = Vec::new();
    assert(nodes_view(out@) =~= isort(sv.take(0), le));
    let mut i: usize = 0;
    while i < v.len()
        invariant
            le == node_order(),
            sv == nodes_view(v@),
            i <= v.len(),
            nodes_view(out@) == isort(sv.take(i as int), le),
        decreases v.len() - i,
    {
        let x = v[i].duplicate();
        let ghost ov = nodes_view(out@);
        let mut p: usize = 0;
        while p < out.len() && node_le_exec(&out[p], &x)
            invariant
                le == node_order(),
                ov == nodes_view(out@),
                p <= out.len(),
                ins_pos(ov, x@, le, 0) == ins_pos(ov, x@, le, p as int),
            decreases out.len() - p,
        {
            p += 1;
        }
        out.insert(p, x);
        proof {
            assert(sv.take(i + 1).drop_last() =~= sv.take(i as int));
            assert(sv.take(i + 1).last() == x@);
            assert(nodes_view(out@) =~= ov.insert(p as int, x@));
        }
        i += 1;
    }
    assert(sv.take(v.len() as int) =~= sv);
    out
}

/// Edges in canonical order: by source, target, then relation name.
pub fn sort_edges(v: &Vec<Edge>) -> (r: Vec<Edge>)
    ensures
        edges_view(r@) == isort(edges_view(v@), edge_order()),
{
    let ghost le = edge_order();
    let ghost sv = edges_view(v@);
    let mut out: Vec<Edge> = Vec::new();
    assert(edges_view(out@) =~= isort(sv.take(0), le));
    let mut i: usize = 0;
    while i < v.len()
        invariant
            le == edge_order(),
            sv == edges_view(v@),
            i <= v.len(),
            edges_view(out@) == isort(sv.take(i as int), le),
        decreases v.len() - i,
    {
        let x = v[i].duplicate();
        let ghost ov = edges_view(out@);
        let mut p: usize = 0;
        while p < out.len() && edge_le_exec(&out[p], &x)
            invariant
                le == edge_order(),
                ov == edges_view(out@),
                p <= out.len(),
                ins_pos(ov, x@, le, 0) == ins_pos(ov, x@, le, p as int),
            decreases out.len() - p,
        {
            p += 1;
        }
        out.insert(p, x);
        proof {
            assert(sv.take(i + 1).drop_last() =~= sv.take(i as int));
            assert(sv.take(i + 1).last() == x@);
            assert(edges_view(out@) =~= ov.insert(p as int, x@));
        }
        i += 1;
    }
    assert(sv.take(v.len() as int) =~= sv);
    out
}

/// Issues in canonical order: by code, ties kept in the order given.
pub fn sort_issues(v: &Vec<Issue>) -> (r: Vec<Issue>)
    ensures
        issues_view(r@) == isort(issues_view(v@), issue_order()),
{
    let ghost le = issue_order();
    let ghost sv = issues_view(v@);
    let mut out: Vec<Issue> = Vec::new();
    assert(issues_view(out@) =~= isort(sv.take(0), le));
    let mut i: usize = 0;
    while i < v.len()
        invariant
            le == issue_order(),
            sv == issues_view(v@),
            i <= v.len(),
            issues_view(out@) == isort(sv.take(i as int), le),
        decreases v.len() - i,
    {
        let x = v[i].duplicate();
        let ghost ov = issues_view(out@);
        let mut p: usize = 0;
        while p < out.len() && issue_le_exec(&out[p], &x)
            invariant
                le == issue_order(),
                ov == issues_view(out@),
                p <= out.len(),
                ins_pos(ov, x@, le, 0) == ins_pos(ov, x@, le, p as int),
            decreases out.len() - p,
        {
            p += 1;
        }
        out.insert(p, x);
        proof {
            assert(sv.take(i + 1).drop_last() =~= sv.take(i as int));
            assert(sv.take(i + 1).last() == x@);
            assert(issues_view(out@) =~= ov.insert(p as int, x@));
        }
        i += 1;
    }
    assert(sv.take(v.len() as int) =~= sv);
    out
}

// ---------------------------------------------------------------- JSON form

pub open spec fn status_name(s: Status) -> Seq<char> {
    match s {
        Status::Active => "active"@,
        Status::Inactive => "inactive"@,
        Status::Conflict => "conflict"@,
    }
}

pub open spec fn node_type_name(t: NodeType) -> Seq<char> {
    match t {
        NodeType::Os => "os"@,
        NodeType::Service => "service"@,
        NodeType::Runtime => "runtime"@,
        NodeType::Application => "application"@,
        NodeType::Port => "port"@,
        NodeType::File => "file"@,
        NodeType::Python => "python"@,
        NodeType::Postgres => "postgres"@,
        NodeType::Mysql => "mysql"@,
        NodeType::Redis => "redis"@,
        NodeType::Gpu => "gpu"@,
        NodeType::DockerImages => "dockerimages"@,
    }
}

pub open spec fn relation_name(r: Relation) -> Seq<char> {
    match r {
        Relation::REQUIRES => "REQUIRES"@,
        Relation::BINDS => "BINDS"@,
        Relation::CONFLICTS => "CONFLICTS"@,
    }
}

pub open spec fn severity_name(s: Severity) -> Seq<char> {
    match s {
        Severity::Critical => "critical"@,
        Severity::Warning => "warning"@,
    }
}

/// A node as a JSON object, keys in sorted order.
pub open spec fn node_json(n: NodeV) -> JsonV {
    JsonV::Obj(
        seq![
            ("id"@, JsonV::Str(n.id)),
            ("label"@, JsonV::Str(n.label)),
            ("metadata"@, JsonV::Obj(n.metadata)),
            ("status"@, JsonV::Str(status_name(n.status))),
            ("type"@, JsonV::Str(node_type_name(n.node_type))),
        ],
    )
}

pub open spec fn edge_json(e: EdgeV) -> JsonV {
    JsonV::Obj(
        seq![
            ("from"@, JsonV::Str(e.from)),
            ("relation"@, JsonV::Str(relation_name(e.relation))),
            ("to"@, JsonV::Str(e.to)),
        ],
    )
}

pub open spec fn issue_json(i: IssueV) -> JsonV {
    JsonV::Obj(
        seq![
            ("code"@, JsonV::Str(i.code)),
            ("description"@, JsonV::Str(i.description)),
            ("severity"@, JsonV::Str(severity_name(i.severity))),
            ("suggestion"@, JsonV::Str(i.suggestion)),
            ("title"@, JsonV::Str(i.title)),
        ],
    )
}

/// What the fingerprint is taken over: everything but the fingerprint, keys sorted.
pub open spec fn payload_json(v: StateV) -> JsonV {
    JsonV::Obj(
        seq![
            ("edges"@, JsonV::Arr(v.edges.map_values(|e: EdgeV| edge_json(e)))),
            ("issues"@, JsonV::Arr(v.issues.map_values(|i: IssueV| issue_json(i)))),
            ("nodes"@, JsonV::Arr(v.nodes.map_values(|n: NodeV| node_json(n)))),
            ("timestamp"@, JsonV::Str(v.timestamp)),
            ("version"@, JsonV::Str(v.version)),
        ],
    )
}

/// The whole state as a JSON object, keys sorted.
pub open spec fn state_json(v: StateV) -> JsonV {
    JsonV::Obj(
        seq![
            ("edges"@, JsonV::Arr(v.edges.map_values(|e: EdgeV| edge_json(e)))),
            ("fingerprint"@, JsonV::Str(v.fingerprint)),
            ("issues"@, JsonV::Arr(v.issues.map_values(|i: IssueV| issue_json(i)))),
            ("nodes"@, JsonV::Arr(v.nodes.map_values(|n: NodeV| node_json(n)))),
            ("timestamp"@, JsonV::Str(v.timestamp)),
            ("version"@, JsonV::Str(v.version)),
        ],
    )
}

fn str_json(s: &str) -> (r: Json)
    ensures
        r@ == JsonV::Str(s@),
{
    Json::Str(String::from_str(s))
}

fn status_json(s: Status) -> (r: Json)
    ensures
        r@ == JsonV::Str(status_name(s)),
{
    match s {
        Status::Active => str_json("active"),
        Status::Inactive => str_json("inactive"),
        Status::Conflict => str_json("conflict"),
    }
}

fn type_json(t: NodeType) -> (r: Json)
    ensures
        r@ == JsonV::Str(node_type_name(t)),
{
    match t {
        NodeType::Os => str_json("os"),
        NodeType::Service => str_json("service"),
        NodeType::Runtime => str_json("runtime"),
        NodeType::Application => str_json("application"),
        NodeType::Port => str_json("port"),
        NodeType::File => str_json("file"),
        NodeType::Python => str_json("python"),
        NodeType::Postgres => str_json("postgres"),
        NodeType::Mysql => str_json("mysql"),
        NodeType::Redis => str_json("redis"),
        NodeType::Gpu => str_json("gpu"),
        NodeType::DockerImages => str_json("dockerimages"),
    }
}

fn relation_json(r: Relation) -> (j: Json)
    ensures
        j@ == JsonV::Str(relation_name(r)),
{
    match r {
        Relation::REQUIRES => str_json("REQUIRES"),
        Relation::BINDS => str_json("BINDS"),
        Relation::CONFLICTS => str_json("CONFLICTS"),
    }
}

fn severity_json(s: Severity) -> (j: Json)
    ensures
        j@ == JsonV::Str(severity_name(s)),
{
    match s {
        Severity::Critical => str_json("critical"),
        Severity::Warning => str_json("warning"),
    }
}

pub fn node_to_json(n: &Node) -> (r: Json)
    ensures
        r@ == node_json(n@),
{
    let mut e: Vec<(String, Json)> = Vec::new();
    proof {
        lemma_entries_view(e, 0);
    }
    push_entry(&mut e, String::from_str("id"), Json::Str(n.id.clone()));
    push_entry(&mut e, String::from_str("label"), Json::Str(n.label.clone()));
    push_entry(&mut e, String::from_str("metadata"), Json::Obj(copy_entries(&n.metadata)));
    push_entry(&mut e, String::from_str("status"), status_json(n.status));
    push_entry(&mut e, String::from_str("type"), type_json(n.node_type));
    assert(entries_view(e) =~= node_json(n@)->Obj_0);
    Json::Obj(e)
}

pub fn edge_to_json(x: &Edge) -> (r: Json)
    ensures
        r@ == edge_json(x@),
{
    let mut e: Vec<(String, Json)> = Vec::new();
    proof {
        lemma_entries_view(e, 0);
    }
    push_entry(&mut e, String::from_str("from"), Json::Str(x.from.clone()));
    push_entry(&mut e, String::from_str("relation"), relation_json(x.relation));
    push_entry(&mut e, String::from_str("to"), Json::Str(x.to.clone()));
    assert(entries_view(e) =~= edge_json(x@)->Obj_0);
    Json::Obj(e)
}

pub fn issue_to_json(x: &Issue) -> (r: Json)
    ensures
        r@ == issue_json(x@),
{
    let mut e: Vec<(String, Json)> = Vec::new();
    proof {
        lemma_entries_view(e, 0);
    }
    push_entry(&mut e, String::from_str("code"), Json::Str(x.code.clone()));
    push_entry(&mut e, String::from_str("description"), Json::Str(x.description.clone()));
    push_entry(&mut e, String::from_str("severity"), severity_json(x.severity));
    push_entry(&mut e, String::from_str("suggestion"), Json::Str(x.suggestion.clone()));
    push_entry(&mut e, String::from_str("title"), Json::Str(x.title.clone()));
    assert(entries_view(e) =~= issue_json(x@)->Obj_0);
    Json::Obj(e)
}

fn nodes_json(v: &Vec<Node>) -> (r: Json)
    ensures
        r@ == JsonV::Arr(nodes_view(v@).map_values(|n: NodeV| node_json(n))),
{
    let ghost target = nodes_view(v@).map_values(|n: NodeV| node_json(n));
    let mut out: Vec<Json> = Vec::new();
    proof {
        lemma_list_view(out, 0);
    }
    let mut i: usize = 0;
    while i < v.len()
        invariant
            target == nodes_view(v@).map_values(|n: NodeV| node_json(n)),
            i <= v.len(),
            list_view(out) == target.take(i as int),
        decreases v.len() - i,
    {
        push_item(&mut out, node_to_json(&v[i]));
        i += 1;
        assert(list_view(out) =~= target.take(i as int));
    }
    assert(target.take(v.len() as int) =~= target);
    Json::Arr(out)
}

fn edges_json(v: &Vec<Edge>) -> (r: Json)
    ensures
        r@ == JsonV::Arr(edges_view(v@).map_values(|e: EdgeV| edge_json(e))),
{
    let ghost target = edges_view(v@).map_values(|e: EdgeV| edge_json(e));
    let mut out: Vec<Json> = Vec::new();
    proof {
        lemma_list_view(out, 0);
    }
    let mut i: usize = 0;
    while i < v.len()
        invariant
            target == edges_view(v@).map_values(|e: EdgeV| edge_json(e)),
            i <= v.len(),
            list_view(out) == target.take(i as int),
        decreases v.len() - i,
    {
        push_item(&mut out, edge_to_json(&v[i]));
        i += 1;
        assert(list_view(out) =~= target.take(i as int));
    }
    assert(target.take(v.len() as int) =~= target);
    Json::Arr(out)
}

fn issues_json(v: &Vec<Issue>) -> (r: Json)
    ensures
        r@ == JsonV::Arr(issues_view(v@).map_values(|i: IssueV| issue_json(i))),
{
    let ghost target = issues_view(v@).map_values(|i: IssueV| issue_json(i));
    let mut out: Vec<Json> = Vec::new();
    proof {
        lemma_list_view(out, 0);
    }
    let mut i: usize = 0;
    while i < v.len()
        invariant
            target == issues_view(v@).map_values(|i: IssueV| issue_json(i)),
            i <= v.len(),
            list_view(out) == target.take(i as int),
        decreases v.len() - i,
    {
        push_item(&mut out, issue_to_json(&v[i]));
        i += 1;
        assert(list_view(out) =~= target.take(i as int));
    }
    assert(target.take(v.len() as int) =~= target);
    Json::Arr(out)
}

/// SHA-256 of the UTF-8 bytes of a text, as 64 lower-case hex digits.
pub uninterp spec fn sha256_hex_of(s: Seq<char>) -> Seq<char>;

/// Relies on `sha2::Sha256::digest` over the text's UTF-8 bytes, written with the
/// digest's lower-case hex formatting: two hex digits for each of the 32 bytes.
#[verifier::external_body]
fn sha256_hex(s: &str) -> (r: String)
    ensures
        r@ == sha256_hex_of(s@),
        r@.len() == 64,
{
    format!("{:x}", <sha2::Sha256 as sha2::Digest>::digest(s.as_bytes()))
}

/// The fingerprint of a state: SHA-256 of the JSON text of its payload.
pub open spec fn fingerprint_of(v: StateV) -> Seq<char> {
    sha256_hex_of(enc(payload_json(v)))
}

pub open spec fn normalized(v: StateV) -> StateV {
    StateV {
        nodes: isort(v.nodes, node_order()),
        edges: isort(v.edges, edge_order()),
        issues: isort(v.issues, issue_order()),
        ..v
    }
}

/// The state that `SystemState::new` builds from its parts.
pub open spec fn built(nodes: Seq<NodeV>, edges: Seq<EdgeV>, issues: Seq<IssueV>, timestamp: Seq<char>) -> StateV {
    let sorted = StateV {
        nodes: isort(nodes, node_order()),
        edges: isort(edges, edge_order()),
        issues: isort(issues, issue_order()),
        version: CONTRACT_VERSION@,
        timestamp,
        fingerprint: Seq::empty(),
    };
    StateV { fingerprint: fingerprint_of(sorted), ..sorted }
}

/// The snapshot invariants checked after every scan.
pub open spec fn contract_holds(v: StateV) -> bool {
    &&& v.nodes.len() > 0
    &&& v.timestamp.len() > 0
    &&& v.version.len() > 0
    &&& v.fingerprint.len() > 0
    &&& v.version == CONTRACT_VERSION@
    &&& forall|i: int, j: int|
        0 <= i < j < v.nodes.len() ==> (#[trigger] v.nodes[i]).id != (#[trigger] v.nodes[j]).id
    &&& forall|i: int|
        0 <= i < v.issues.len() ==> (#[trigger] v.issues[i]).code.len() > 0 && v.issues[i].title.len()
            > 0
}

/// Two different nodes carry `id`.
pub open spec fn has_duplicate_id(nodes: Seq<NodeV>, id: Seq<char>) -> bool {
    exists|i: int, j: int| 0 <= i < j < nodes.len() && (#[trigger] nodes[i]).id == id && (#[trigger] nodes[j]).id == id
}

/// Which snapshot invariant failed.
#[derive(Debug, Clone, PartialEq, Eq)]
pub enum ContractViolation {
    NoNodes,
    MissingTimestamp,
    MissingVersion,
    MissingFingerprint,
    VersionMismatch,
    DuplicateNodeId(String),
    MissingIssueCode,
    MissingIssueTitle,
}

impl ContractViolation {
    /// The message reported for the violation.
    pub fn message(&self) -> String {
        match self {
            ContractViolation::NoNodes => String::from_str(
                "SystemState invariant violated: nodes must not be empty",
            ),
            ContractViolation::MissingTimestamp => String::from_str(
                "SystemState invariant violated: timestamp missing",
            ),
            ContractViolation::MissingVersion => String::from_str(
                "SystemState invariant violated: version missing",
            ),
            ContractViolation::MissingFingerprint => String::from_str(
                "SystemState invariant violated: fingerprint missing",
            ),
            ContractViolation::VersionMismatch => String::from_str(
                "SystemState invariant violated: version mismatch",
            ),
            ContractViolation::DuplicateNodeId(id) => concat(
                "duplicate node id detected: ",
                id.as_str(),
            ),
            ContractViolation::MissingIssueCode => String::from_str(
                "Issue invariant violated: code missing",
            ),
            ContractViolation::MissingIssueTitle => String::from_str(
                "Issue invariant violated: title missing",
            ),
        }
    }
}

impl SystemState {
    /// Builds a snapshot: contract version set, parts in canonical order, fingerprint
    /// computed over the result.
    pub fn new(nodes: Vec<Node>, edges: Vec<Edge>, issues: Vec<Issue>, timestamp: String) -> (r: SystemState)
        ensures
            r@ == built(nodes_view(nodes@), edges_view(edges@), issues_view(issues@), timestamp@),
            r@.fingerprint.len() == 64,
    {
        let mut state = SystemState {
            nodes,
            edges,
            issues,
            version: String::from_str(CONTRACT_VERSION),
            timestamp,
            fingerprint: String::new(),
        };
        state.normalize();
        state.fingerprint = state.compute_fingerprint();
        state
    }

    /// Puts nodes, edges and issues into canonical order.
    pub fn normalize(&mut self)
        ensures
            final(self)@ == normalized(old(self)@),
    {
        self.nodes = sort_nodes(&self.nodes);
        self.edges = sort_edges(&self.edges);
        self.issues = sort_issues(&self.issues);
    }

    /// Normalizes and recomputes the fingerprint.
    pub fn refresh_fingerprint(&mut self)
        ensures
            final(self)@ == (StateV {
                fingerprint: fingerprint_of(normalized(old(self)@)),
                ..normalized(old(self)@)
            }),
            final(self)@.fingerprint.len() == 64,
    {
        self.normalize();
        self.fingerprint = self.compute_fingerprint();
    }

    pub fn compute_fingerprint(&self) -> (r: String)
        ensures
            r@ == fingerprint_of(self@),
            r@.len() == 64,
    {
        let mut e: Vec<(String, Json)> = Vec::new();
        proof {
            lemma_entries_view(e, 0);
        }
        push_entry(&mut e, String::from_str("edges"), edges_json(&self.edges));
        push_entry(&mut e, String::from_str("issues"), issues_json(&self.issues));
        push_entry(&mut e, String::from_str("nodes"), nodes_json(&self.nodes));
        push_entry(&mut e, String::from_str("timestamp"), Json::Str(self.timestamp.clone()));
        push_entry(&mut e, String::from_str("version"), Json::Str(self.version.clone()));
        assert(entries_view(e) =~= payload_json(self@)->Obj_0);
        let payload = Json::Obj(e);
        sha256_hex(to_text(&payload).as_str())
    }

    /// The whole state as JSON, keys sorted.
    pub fn to_json(&self) -> (r: Json)
        ensures
            r@ == state_json(self@),
    {
        let mut e: Vec<(String, Json)> = Vec::new();
        proof {
            lemma_entries_view(e, 0);
        }
        push_entry(&mut e, String::from_str("edges"), edges_json(&self.edges));
        push_entry(&mut e, String::from_str("fingerprint"), Json::Str(self.fingerprint.clone()));
        push_entry(&mut e, String::from_str("issues"), issues_json(&self.issues));
        push_entry(&mut e, String::from_str("nodes"), nodes_json(&self.nodes));
        push_entry(&mut e, String::from_str("timestamp"), Json::Str(self.timestamp.clone()));
        push_entry(&mut e, String::from_str("version"), Json::Str(self.version.clone()));
        assert(entries_view(e) =~= state_json(self@)->Obj_0);
        Json::Obj(e)
    }

    /// Checks the snapshot invariants, reporting the first that fails in the order
    /// nodes, timestamp, version, fingerprint, version value, node ids, issues.
    pub fn assert_contract(&self) -> (r: Result<(), ContractViolation>)
        ensures
            r is Ok <==> contract_holds(self@),
            r == Err::<(), ContractViolation>(ContractViolation::NoNodes) <==> self.nodes.len() == 0,
            (r is Err && r->Err_0 is DuplicateNodeId) ==> has_duplicate_id(self@.nodes, r->Err_0->DuplicateNodeId_0@),
            (self@.nodes.len() > 0 && self@.timestamp.len() > 0 && self@.version.len() > 0
                && self@.fingerprint.len() > 0 && self@.version == CONTRACT_VERSION@
                && exists|id: Seq<char>| has_duplicate_id(self@.nodes, id)) ==> (r is Err
                && r->Err_0 is DuplicateNodeId),
    {
        if self.nodes.len() == 0 {
            return Err(ContractViolation::NoNodes);
        }
        if self.timestamp.unicode_len() == 0 {
            return Err(ContractViolation::MissingTimestamp);
        }
        if self.version.unicode_len() == 0 {
            return Err(ContractViolation::MissingVersion);
        }
        if self.fingerprint.unicode_len() == 0 {
            return Err(ContractViolation::MissingFingerprint);
        }
        if !str_eq(self.version.as_str(), CONTRACT_VERSION) {
            return Err(ContractViolation::VersionMismatch);
        }
        let ghost nv = self@.nodes;
        let mut i: usize = 0;
        while i < self.nodes.len()
            invariant
                nv == self@.nodes,
                i <= self.nodes.len(),
                forall|a: int, b: int| 0 <= a < b < nv.len() && a < i ==> (#[trigger] nv[a]).id != (#[trigger] nv[b]).id,
            decreases self.nodes.len() - i,
        {
            let mut j: usize = i + 1;
            while j < self.nodes.len()
                invariant
                    nv == self@.nodes,
                    i < self.nodes.len(),
                    i + 1 <= j <= self.nodes.len(),
                    forall|a: int, b: int| 0 <= a < b < nv.len() && a < i ==> (#[trigger] nv[a]).id != (#[trigger] nv[b]).id,
                    forall|b: int| i < b < j ==> nv[i as int].id != (#[trigger] nv[b]).id,
                decreases self.nodes.len() - j,
            {
                if str_eq(self.nodes[i].id.as_str(), self.nodes[j].id.as_str()) {
                    assert(nv[i as int].id == nv[j as int].id);
                    let dup = self.nodes[i].id.clone();
                    assert(has_duplicate_id(nv, dup@));
                    return Err(ContractViolation::DuplicateNodeId(dup));
                }
                j += 1;
            }
            i += 1;
        }
        let ghost iv = self@.issues;
        let mut k: usize = 0;
        while k < self.issues.len()
            invariant
                iv == self@.issues,
                self.nodes.len() > 0,
                forall|a: int, b: int|
                    0 <= a < b < self@.nodes.len() ==> (#[trigger] self@.nodes[a]).id != (#[trigger] self@.nodes[b]).id,
                k <= self.issues.len(),
                forall|a: int| 0 <= a < k ==> (#[trigger] iv[a]).code.len() > 0 && iv[a].title.len() > 0,
            decreases self.issues.len() - k,
        {
            assert(iv[k as int] == self.issues@[k as int]@);
            if self.issues[k].code.unicode_len() == 0 {
                return Err(ContractViolation::MissingIssueCode);
            }
            if self.issues[k].title.unicode_len() == 0 {
                return Err(ContractViolation::MissingIssueTitle);
            }
            k += 1;
        }
        Ok(())
    }
}

/// A state with two nodes under one id breaks the snapshot contract, so
/// `assert_contract` rejects it.
pub proof fn duplicate_node_ids_break_contract(v: StateV, i: int, j: int)
    requires
        0 <= i < v.nodes.len(),
        0 <= j < v.nodes.len(),
        i != j,
        v.nodes[i].id == v.nodes[j].id,
    ensures
        !contract_holds(v),
{
    if i < j {
        assert(v.nodes[i].id == v.nodes[j].id);
    } else {
        assert(v.nodes[j].id == v.nodes[i].id);
    }
}

/// Building a state is independent of the order in which its nodes, edges and issues
/// arrive: arrangements of the same contents give the same state, fingerprint included,
/// as long as distinct nodes differ in lower-cased id and distinct issues differ in code.
pub proof fn build_is_order_independent(
    nodes1: Seq<NodeV>,
    nodes2: Seq<NodeV>,
    edges1: Seq<EdgeV>,
    edges2: Seq<EdgeV>,
    issues1: Seq<IssueV>,
    issues2: Seq<IssueV>,
    timestamp: Seq<char>,
)
    requires
        nodes1.to_multiset() == nodes2.to_multiset(),
        edges1.to_multiset() == edges2.to_multiset(),
        issues1.to_multiset() == issues2.to_multiset(),
        forall|a: NodeV, b: NodeV|
            nodes1.contains(a) && nodes1.contains(b) && lower_of(a.id) == lower_of(b.id) ==> a == b,
        forall|a: IssueV, b: IssueV|
            issues1.contains(a) && issues1.contains(b) && a.code == b.code ==> a == b,
    ensures
        built(nodes1, edges1, issues1, timestamp) == built(nodes2, edges2, issues2, timestamp),
        built(nodes1, edges1, issues1, timestamp).fingerprint == built(
            nodes2,
            edges2,
            issues2,
            timestamp,
        ).fingerprint,
{
    lemma_node_order();
    lemma_edge_order();
    lemma_issue_order();
    assert forall|a: NodeV, b: NodeV|
        nodes1.contains(a) && nodes1.contains(b) && #[trigger] node_order()(a, b) && #[trigger] node_order()(
            b,
            a,
        ) implies a == b by {
        lemma_seq_le_antisym(lower_of(a.id), lower_of(b.id));
    }
    assert forall|a: IssueV, b: IssueV|
        issues1.contains(a) && issues1.contains(b) && #[trigger] issue_order()(a, b)
            && #[trigger] issue_order()(b, a) implies a == b by {
        lemma_seq_le_antisym(a.code, b.code);
    }
    lemma_isort_permutation(nodes1, nodes2, node_order());
    lemma_isort_permutation(edges1, edges2, edge_order());
    lemma_isort_permutation(issues1, issues2, issue_order());
}

} // verus!
