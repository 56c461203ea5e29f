use preflight::command::{parse_command, tokenize_command};
use preflight::encode::to_text;
use preflight::graph::derive_edges;
use preflight::history::{diff_latest, history_file_name, prune_plan, HistoryEntry};
use preflight::json::Json;
use preflight::json_diff::diff_states;
use preflight::models::{Edge, Issue, Node, NodeType, Relation, Severity, Status, SystemState};
use preflight::oracle::{evaluate, parse_version_pair, simulate_command};
use preflight::risk::{severity_for, summarize_risk};
use preflight::risk_config::{default_config, RiskConfig};
use preflight::scanner::{
    compose_version_of, cudnn_version_of, maxmemory_of, parse_requirement_line, port_status_from,
    version_satisfies,
};
use preflight::state::ContractViolation;

fn node(id: &str, status: Status, metadata: Vec<(String, Json)>) -> Node {
    Node { id: id.into(), node_type: NodeType::Service, label: id.into(), status, metadata }
}

fn issue(code: &str, severity: Severity) -> Issue {
    Issue {
        code: code.into(),
        severity,
        title: "t".into(),
        description: "d".into(),
        suggestion: "s".into(),
    }
}

fn obj(entries: &[(&str, Json)]) -> Json {
    Json::Obj(entries.iter().map(|(k, v)| (k.to_string(), v.clone())).collect())
}

fn section<'a>(diff: &'a Json, name: &str) -> &'a Vec<(String, Json)> {
    match diff {
        Json::Obj(e) => match &e.iter().find(|(k, _)| k == name).unwrap().1 {
            Json::Obj(s) => s,
            _ => panic!("section is not an object"),
        },
        _ => panic!("diff is not an object"),
    }
}

fn current_state() -> SystemState {
    SystemState::new(
        vec![
            node("os", Status::Active, vec![]),
            node("port8000", Status::Inactive, vec![]),
            node("docker", Status::Inactive, vec![]),
        ],
        vec![],
        vec![],
        "2024-01-01T00:00:00Z".into(),
    )
}

#[test]
fn port_inversion_bound_is_active_free_is_inactive() {
    assert_eq!(port_status_from(None, false), Status::Active);
    assert_eq!(port_status_from(None, true), Status::Inactive);
    assert_eq!(port_status_from(Some("LISTEN 0 128 *:8000".into()), true), Status::Active);
    assert_eq!(port_status_from(Some("  \n".into()), true), Status::Inactive);
}

#[test]
fn predicted_bind_scenario() {
    let current = current_state();
    let result = simulate_command("uvicorn app:app --port 8000", Some(&current), &default_config());
    assert!(result.issues.iter().any(|i| i.code == "SIM_PORT_8000_CONFLICT"));
    let proposed = result.proposed_state.unwrap();
    let port = proposed.nodes.iter().find(|n| n.id == "port8000").unwrap();
    assert_eq!(port.status, Status::Active);
    assert!(port.metadata.iter().any(|(k, v)| k == "predicted_bind" && matches!(v, Json::Bool(true))));
    let diff = result.diff.unwrap();
    let changed = section(&diff, "changed");
    assert!(changed.iter().any(|(k, _)| k == "nodes"));
    assert_eq!(current.nodes.iter().find(|n| n.id == "port8000").unwrap().status, Status::Inactive);
    assert_eq!(parse_command("uvicorn app:app --port 8000").ports, vec![8000]);
}

#[test]
fn docker_verb_scenario() {
    let parsed = parse_command("docker compose up -d");
    assert!(parsed.docker_compose);
    assert!(!parsed.docker_run);
    let result = simulate_command("docker compose up -d", Some(&current_state()), &default_config());
    let proposed = result.proposed_state.unwrap();
    let docker = proposed.nodes.iter().find(|n| n.id == "docker").unwrap();
    assert_eq!(docker.status, Status::Active);
    assert!(docker.metadata.iter().any(|(k, v)| k == "predict_used"
        && matches!(v, Json::Str(s) if s == "docker compose up -d")));
}

#[test]
fn upper_case_verbs_are_detected() {
    let parsed = parse_command("DOCKER-COMPOSE build; DOCKER RUN -p 5432:5432 x");
    assert!(parsed.docker_compose);
    assert!(parsed.docker_run);
    assert_eq!(parsed.ports, vec![5432, 5432]);
    assert_eq!(parse_command("npm run dev -- 123456 9").ports, vec![12345]);
    assert_eq!(parse_command("pin 99999").ports, Vec::<u16>::new());
}

#[test]
fn compose_api_drift_scenario() {
    let docker = node(
        "docker",
        Status::Active,
        vec![
            ("compose_version".into(), Json::Str("3.9".into())),
            ("docker_api_version".into(), Json::Str("1.20".into())),
        ],
    );
    let state = SystemState::new(vec![docker], vec![], vec![], "now".into());
    let issues = evaluate(&state);
    let drift = issues.iter().find(|i| i.code == "DOCKER_COMPOSE_DRIFT").unwrap();
    assert_eq!(drift.description, "compose.yaml requires Docker API >= 1.25 but detected 1.20.");
    let ok = node(
        "docker",
        Status::Active,
        vec![
            ("compose_version".into(), Json::Str("3.9".into())),
            ("docker_api_version".into(), Json::Str("1.41".into())),
        ],
    );
    let state = SystemState::new(vec![ok], vec![], vec![], "now".into());
    assert!(!evaluate(&state).iter().any(|i| i.code == "DOCKER_COMPOSE_DRIFT"));
}

#[test]
fn version_pairs_parse() {
    assert_eq!(parse_version_pair(" v1.41 "), Some((1, 41)));
    assert_eq!(parse_version_pair("3"), Some((3, 0)));
    assert_eq!(parse_version_pair("x.1"), None);
}

#[test]
fn redis_memory_rules() {
    let redis = |mem: &str| {
        node(
            "redis",
            Status::Active,
            vec![
                ("config_path".into(), Json::Str("/etc/redis/redis.conf".into())),
                ("maxmemory".into(), Json::Str(mem.into())),
            ],
        )
    };
    let low = evaluate(&SystemState::new(vec![redis("128MB")], vec![], vec![], "t".into()));
    assert!(low.iter().any(|i| i.code == "REDIS_MEMORY_LOW"));
    let high = evaluate(&SystemState::new(vec![redis("1gb")], vec![], vec![], "t".into()));
    assert!(!high.iter().any(|i| i.code == "REDIS_MEMORY_LOW"));
    let raw = evaluate(&SystemState::new(vec![redis("1048576")], vec![], vec![], "t".into()));
    assert!(raw.iter().any(|i| i.code == "REDIS_MEMORY_LOW"));
}

#[test]
fn port_bound_is_critical() {
    let issues = evaluate(&SystemState::new(
        vec![node("port8000", Status::Active, vec![])],
        vec![],
        vec![],
        "t".into(),
    ));
    assert_eq!(issues.len(), 1);
    assert_eq!(issues[0].code, "PORT_8000_BOUND");
    assert_eq!(issues[0].severity, Severity::Critical);
}

#[test]
fn normalization_ignores_insertion_order() {
    let a = SystemState::new(
        vec![node("redis", Status::Active, vec![]), node("Docker", Status::Inactive, vec![])],
        vec![
            Edge { from: "redis".into(), to: "os".into(), relation: Relation::REQUIRES },
            Edge { from: "docker".into(), to: "port8000".into(), relation: Relation::BINDS },
        ],
        vec![issue("REDIS_INACTIVE", Severity::Warning), issue("DOCKER_INACTIVE", Severity::Warning)],
        "t".into(),
    );
    let b = SystemState::new(
        vec![node("Docker", Status::Inactive, vec![]), node("redis", Status::Active, vec![])],
        vec![
            Edge { from: "docker".into(), to: "port8000".into(), relation: Relation::BINDS },
            Edge { from: "redis".into(), to: "os".into(), relation: Relation::REQUIRES },
        ],
        vec![issue("DOCKER_INACTIVE", Severity::Warning), issue("REDIS_INACTIVE", Severity::Warning)],
        "t".into(),
    );
    assert_eq!(a.fingerprint, b.fingerprint);
    assert_eq!(a.fingerprint.len(), 64);
    assert_eq!(a.nodes[0].id, "Docker");
    assert_eq!(to_text(&a.to_json()), to_text(&b.to_json()));
    let c = SystemState::new(vec![node("redis", Status::Inactive, vec![])], vec![], vec![], "t".into());
    assert_ne!(a.fingerprint, c.fingerprint);
}

#[test]
fn contract_rejects_duplicate_ids() {
    let mut state = current_state();
    assert!(state.assert_contract().is_ok());
    state.nodes.push(node("docker", Status::Active, vec![]));
    assert!(matches!(state.assert_contract(), Err(ContractViolation::DuplicateNodeId(_))));
}

#[test]
fn contract_reports_each_violation() {
    let mut s = current_state();
    s.nodes.clear();
    assert_eq!(s.assert_contract(), Err(ContractViolation::NoNodes));
    let mut s = current_state();
    s.timestamp.clear();
    assert_eq!(s.assert_contract(), Err(ContractViolation::MissingTimestamp));
    let mut s = current_state();
    s.version.clear();
    assert_eq!(s.assert_contract(), Err(ContractViolation::MissingVersion));
    let mut s = current_state();
    s.fingerprint.clear();
    assert_eq!(s.assert_contract(), Err(ContractViolation::MissingFingerprint));
    let mut s = current_state();
    s.version = "2.0.0".into();
    assert_eq!(s.assert_contract(), Err(ContractViolation::VersionMismatch));
    let mut s = current_state();
    s.issues.push(issue("", Severity::Warning));
    assert_eq!(s.assert_contract(), Err(ContractViolation::MissingIssueCode));
    let mut s = current_state();
    let mut untitled = issue("X", Severity::Warning);
    untitled.title.clear();
    s.issues.push(untitled);
    assert_eq!(s.assert_contract(), Err(ContractViolation::MissingIssueTitle));
}

#[test]
fn diff_round_trip() {
    let a = obj(&[("x", Json::Num(1)), ("y", Json::Str("a".into()))]);
    let b = obj(&[("y", Json::Str("b".into())), ("z", Json::Bool(true))]);
    let same = diff_states(&a, &a);
    assert!(section(&same, "added").is_empty());
    assert!(section(&same, "removed").is_empty());
    assert!(section(&same, "changed").is_empty());
    let ab = diff_states(&a, &b);
    let ba = diff_states(&b, &a);
    let keys = |v: &Vec<(String, Json)>| v.iter().map(|(k, _)| k.clone()).collect::<Vec<_>>();
    assert_eq!(keys(section(&ab, "added")), vec!["z".to_string()]);
    assert_eq!(keys(section(&ab, "removed")), vec!["x".to_string()]);
    assert_eq!(keys(section(&ab, "added")), keys(section(&ba, "removed")));
    assert_eq!(keys(section(&ab, "changed")), keys(section(&ba, "changed")));
    assert_eq!(to_text(&diff_states(&Json::Num(1), &Json::Num(1))), "{}");
    assert_eq!(
        to_text(&diff_states(&Json::Num(1), &Json::Num(2))),
        "{\"changed\":{\"from\":1,\"to\":2}}"
    );
}

#[test]
fn history_retention_keeps_bound() {
    let entries: Vec<HistoryEntry> = (0..11u64)
        .map(|i| HistoryEntry { name: format!("scan-{i}.json"), modified: 100 + (i * 7) % 11 })
        .collect();
    let (removed, kept) = prune_plan(&entries, 10);
    assert_eq!(kept.len(), 10);
    assert_eq!(removed.len(), 1);
    assert_eq!(removed[0].modified, 100);
    assert_eq!(removed[0].name, "scan-0.json");
    let (removed, kept) = prune_plan(&entries[..3].to_vec(), 10);
    assert!(removed.is_empty());
    assert_eq!(kept.len(), 3);
    assert_eq!(history_file_name("2024-01-01T10:00:00Z"), "scan-2024-01-01T10-00-00Z.json");
}

#[test]
fn history_diff_by_id_and_code() {
    let prev = SystemState::new(
        vec![node("os", Status::Active, vec![]), node("redis", Status::Active, vec![])],
        vec![],
        vec![issue("A", Severity::Warning)],
        "1".into(),
    );
    let cur = SystemState::new(
        vec![node("os", Status::Inactive, vec![]), node("gpu", Status::Active, vec![])],
        vec![],
        vec![issue("B", Severity::Warning)],
        "2".into(),
    );
    assert!(diff_latest(&vec![prev.clone()]).is_none());
    let d = diff_latest(&vec![prev, cur]).unwrap();
    assert_eq!(d.added_nodes, vec!["gpu".to_string()]);
    assert_eq!(d.removed_nodes, vec!["redis".to_string()]);
    assert_eq!(d.changed_nodes, vec!["os".to_string()]);
    assert_eq!(d.added_issues, vec!["B".to_string()]);
    assert_eq!(d.removed_issues, vec!["A".to_string()]);
}

#[test]
fn derived_edges_follow_nodes() {
    let mut state = SystemState::new(
        vec![node("postgres", Status::Active, vec![]), node("port5432", Status::Active, vec![])],
        vec![],
        vec![],
        "t".into(),
    );
    derive_edges(&mut state);
    let pairs: Vec<(String, String)> = state.edges.iter().map(|e| (e.from.clone(), e.to.clone())).collect();
    assert_eq!(
        pairs,
        vec![
            ("docker".to_string(), "port8000".to_string()),
            ("postgres".to_string(), "os".to_string()),
            ("postgres".to_string(), "port5432".to_string()),
        ]
    );
    derive_edges(&mut state);
    assert_eq!(state.edges.iter().filter(|e| e.from == "docker").count(), 1);
}

#[test]
fn risk_scores_and_overrides() {
    let cfg = RiskConfig {
        issue_weights: vec![("A".into(), 60), ("B".into(), 15)],
        severity_overrides: vec![("A".into(), "CRITICAL".into())],
    };
    let issues = vec![issue("A", Severity::Warning), issue("B", Severity::Warning), issue("C", Severity::Warning)];
    assert_eq!(summarize_risk(&issues, &cfg), 75);
    assert_eq!(severity_for(&issues[0], &cfg), Severity::Critical);
    assert_eq!(severity_for(&issues[1], &cfg), Severity::Warning);
    let big = RiskConfig { issue_weights: vec![("A".into(), u32::MAX)], severity_overrides: vec![] };
    assert_eq!(summarize_risk(&issues, &big), u32::MAX);
    let weighted = preflight::config::RiskConfig {
        weights: preflight::config::RiskWeights { critical: 50, warning: 5 },
        issue_overrides: vec![("B".into(), 9)],
    };
    assert_eq!(weighted.score(&issue("A", Severity::Critical)), 50);
    assert_eq!(weighted.score(&issue("B", Severity::Critical)), 9);
}

#[test]
fn risk_summary_severity_threshold() {
    let r = simulate_command("docker compose up on 8000", None, &default_config());
    let summary = r.issues.iter().find(|i| i.code == "SIM_RISK_SUMMARY").unwrap();
    assert_eq!(summary.severity, Severity::Warning);
    let heavy = RiskConfig { issue_weights: vec![("SIM_DOCKER_COMPOSE".into(), 70)], severity_overrides: vec![] };
    let r = simulate_command("docker compose up", None, &heavy);
    let summary = r.issues.iter().find(|i| i.code == "SIM_RISK_SUMMARY").unwrap();
    assert_eq!(summary.severity, Severity::Critical);
    assert!(simulate_command("ls -la", None, &default_config()).issues.is_empty());
}

#[test]
fn parsing_helpers() {
    assert_eq!(
        parse_requirement_line("Django>=3.2  # web"),
        Some(("django".to_string(), ">=3.2".to_string()))
    );
    assert_eq!(parse_requirement_line("requests==2.31.0"), Some(("requests".to_string(), "=2.31.0".to_string())));
    assert_eq!(parse_requirement_line("numpy"), Some(("numpy".to_string(), "*".to_string())));
    assert_eq!(parse_requirement_line("   # only a comment"), None);
    assert_eq!(compose_version_of("services:\n  version: '3.9'\n"), Some("3.9".to_string()));
    assert_eq!(compose_version_of("services: {}\n"), None);
    assert!(version_satisfies("==1.2.3", "1.2.3"));
    assert!(!version_satisfies(">=2.0.0", "v1.0.0"));
    assert!(version_satisfies("=custom", "custom"));
    assert_eq!(tokenize_command("  docker  compose\tup "), vec!["docker", "compose", "up"]);
}

#[test]
fn configuration_file_readers() {
    assert_eq!(maxmemory_of("# comment\n  maxmemory 128mb\nmaxmemory 1gb\n"), Some("128mb".to_string()));
    assert_eq!(maxmemory_of("maxmemory\n"), None);
    assert_eq!(maxmemory_of("port 6379\n"), None);
    assert_eq!(
        cudnn_version_of("#define CUDNN_MAJOR 8\n#define CUDNN_MINOR 9\n#define CUDNN_PATCHLEVEL 2\n"),
        Some("8.9.2".to_string())
    );
    assert_eq!(cudnn_version_of("#define CUDNN_MAJOR 9\n"), Some("9.0.0".to_string()));
    assert_eq!(cudnn_version_of("nothing here"), None);
}
