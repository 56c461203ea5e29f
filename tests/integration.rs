use preflight::deps;
use preflight::doctor;
use preflight::json::Json;
use preflight::models::{Node, NodeType, Status, SystemState};
use preflight::oracle;
use preflight::risk_config::{default_config, RiskConfig};
use preflight::scanner::{self, BindResults, EnvFlags, SystemProvider};
use preflight::validate;
use std::collections::HashMap;

struct MockProvider {
    commands: HashMap<String, String>,
    files: HashMap<String, String>,
}

impl MockProvider {
    fn new() -> Self {
        MockProvider { commands: HashMap::new(), files: HashMap::new() }
    }
}

impl SystemProvider for MockProvider {
    fn file_exists(&self, path: &str) -> bool {
        self.files.contains_key(path)
    }

    fn read_file(&self, path: &str) -> Option<String> {
        self.files.get(path).cloned()
    }

    fn command_output(&self, cmd: &str, _args: &[&str]) -> Option<String> {
        self.commands.get(cmd).cloned()
    }

    fn list_dir(&self, _path: &str) -> Option<Vec<String>> {
        None
    }

    fn modification_time(&self, _path: &str) -> Option<u64> {
        Some(1_000)
    }
}

fn env() -> EnvFlags {
    EnvFlags { venv: false, pipenv: false, poetry: false, conda: false }
}

fn free_ports() -> BindResults {
    BindResults { port5432_free: true, port6379_free: true, port8000_free: true }
}

fn scan(provider: &MockProvider) -> SystemState {
    scanner::perform_scan_with_provider(provider, &env(), &free_ports(), "now".to_string(), "linux")
}

#[test]
fn scanner_produces_nodes_and_docker_entry() {
    let state = scan(&MockProvider::new());
    assert!(state.nodes.len() >= 1, "scanner must emit at least one node");
    let docker = state.nodes.iter().find(|n| n.id == "docker");
    assert!(docker.is_some(), "scanner must always include docker node");
    if let Some(node) = docker {
        assert!(matches!(node.status, Status::Active | Status::Inactive));
    }
}

#[test]
fn python_detector_runs_without_panic() {
    let state = scan(&MockProvider::new());
    assert!(state.nodes.iter().any(|n| n.id == "os"));
}

#[test]
fn docker_images_detector_runs_without_panic() {
    let state = scan(&MockProvider::new());
    assert!(state.nodes.iter().any(|n| n.id == "os"));
}

#[test]
fn extended_detectors_emit_nodes() {
    let state = scan(&MockProvider::new());
    for id in ["nodejs", "postgres", "redis", "gpu"] {
        let node = state.nodes.iter().find(|n| n.id == id);
        assert!(node.is_some(), "{} node must be present", id);
        if let Some(n) = node {
            assert!(
                matches!(n.status, Status::Active | Status::Inactive | Status::Conflict),
                "{} node must have a concrete status",
                id
            );
        }
    }
}

#[test]
fn issue_engine_runs_without_panic() {
    let state = scan(&MockProvider::new());
    let issues = oracle::evaluate(&state);
    assert!(issues.iter().any(|i| i.code == "DOCKER_INACTIVE"));
}

#[test]
fn simulation_engine_runs() {
    let result = oracle::simulate_command("docker compose up -p test", None, &default_config());
    assert!(result.issues.iter().any(|i| i.code == "SIM_DOCKER_COMPOSE"));
}

#[test]
fn simulation_risk_scoring_runs() {
    let result =
        oracle::simulate_command("docker compose up --gpus all -p test", None, &default_config());
    assert!(result.issues.len() > 0, "Simulation should emit issues");
    assert!(result.issues.iter().any(|i| i.code == "SIM_RISK_SUMMARY"));
}

#[test]
fn gpu_vendor_detection_marks_metadata() {
    let mut provider = MockProvider::new();
    provider.commands.insert("lspci".into(), "AMD Radeon Graphics".into());
    let state = scan(&provider);
    let gpu = state.nodes.iter().find(|n| n.id == "gpu").unwrap();
    let detected = gpu
        .metadata
        .iter()
        .find(|(k, _)| k == "amd_gpu_detected")
        .map(|(_, v)| matches!(v, Json::Bool(true)))
        .unwrap_or(false);
    assert!(detected, "AMD GPU should be detected from lspci output");
}

#[test]
fn docker_compose_drift_issue_triggered() {
    let metadata = vec![
        ("compose_version".to_string(), Json::Str("3.9".into())),
        ("docker_api_version".to_string(), Json::Str("1.20".into())),
    ];
    let docker = Node {
        id: "docker".into(),
        node_type: NodeType::DockerImages,
        label: "Docker".into(),
        status: Status::Active,
        metadata,
    };
    let os = Node {
        id: "os".into(),
        node_type: NodeType::Os,
        label: "linux".into(),
        status: Status::Active,
        metadata: Vec::new(),
    };
    let state = SystemState::new(vec![os, docker], vec![], vec![], "now".into());
    let issues = oracle::evaluate(&state);
    assert!(
        issues.iter().any(|i| i.code == "DOCKER_COMPOSE_DRIFT"),
        "compose drift should be reported"
    );
}

#[test]
fn dependency_graph_reports_modules() {
    let files = vec![
        ("src/main.rs".to_string(), "mod graph;\nfn main() {}\n".to_string()),
        ("src/graph.rs".to_string(), "pub fn f() {}\n".to_string()),
    ];
    let graph = deps::collect_graph(&files);
    assert!(!graph.0.is_empty());
}

#[test]
fn architecture_validator_flags_unsorted_imports() {
    let violations =
        validate::validate_content("src/main.rs", "use std::io;\nuse std::fmt;\nfn main() {}\n");
    assert!(
        violations.iter().any(|v| v.message.contains("Imports not sorted")),
        "unsorted imports should be flagged"
    );
}

#[test]
fn doctor_reports_fixable_and_unfixable() {
    let issues = vec![
        preflight::models::Issue {
            code: "DOCKER_INACTIVE".into(),
            severity: preflight::models::Severity::Warning,
            title: "".into(),
            description: "".into(),
            suggestion: "".into(),
        },
        preflight::models::Issue {
            code: "UNKNOWN".into(),
            severity: preflight::models::Severity::Warning,
            title: "".into(),
            description: "".into(),
            suggestion: "".into(),
        },
    ];
    let report = doctor::collect_issues(&issues);
    assert!(report.iter().any(|d| d.fixable));
    assert!(report.iter().any(|d| !d.fixable));
}

#[test]
fn risk_config_falls_back_to_defaults() {
    let cfg = RiskConfig::from_loaded(None);
    assert_eq!(cfg.weight_for("PORT_8000_BOUND"), 100);
    assert_eq!(cfg.weight_for("DOCKER_INACTIVE"), 10);
    let empty = RiskConfig { issue_weights: vec![], severity_overrides: vec![] };
    let cfg = RiskConfig::from_loaded(Some(empty));
    assert_eq!(cfg.weight_for("SIM_DOCKER_COMPOSE"), 15);
    let custom = RiskConfig { issue_weights: vec![("X".into(), 7)], severity_overrides: vec![] };
    let cfg = RiskConfig::from_loaded(Some(custom));
    assert_eq!(cfg.weight_for("X"), 7);
    assert_eq!(cfg.weight_for("PORT_8000_BOUND"), 0);
}

#[test]
fn node_manifest_versions_are_compared() {
    let mut provider = MockProvider::new();
    provider.commands.insert("node".into(), "v20.1.0".into());
    provider.files.insert(
        "package.json".into(),
        "{\"dependencies\": {\"left-pad\": \"^2.0.0\", \"ok\": \"^1.0.0\"}, \"devDependencies\": {\"gone\": \"1.0.0\"}}".into(),
    );
    provider.files.insert("node_modules".into(), String::new());
    provider.files.insert("node_modules/left-pad/package.json".into(), "{\"version\": \"1.3.0\"}".into());
    provider.files.insert("node_modules/ok/package.json".into(), "{\"version\": \"1.4.2\"}".into());
    let state = scan(&provider);
    let node = state.nodes.iter().find(|n| n.id == "nodejs").unwrap();
    assert_eq!(node.status, Status::Active);
    let mismatches = node
        .metadata
        .iter()
        .find(|(k, _)| k == "node_version_mismatches")
        .map(|(_, v)| v.clone())
        .unwrap();
    let names: Vec<String> = match mismatches {
        Json::Arr(items) => items
            .iter()
            .filter_map(|i| match i {
                Json::Obj(e) => e.iter().find(|(k, _)| k == "name").and_then(|(_, v)| match v {
                    Json::Str(s) => Some(s.clone()),
                    _ => None,
                }),
                _ => None,
            })
            .collect(),
        _ => Vec::new(),
    };
    assert_eq!(names, vec!["left-pad".to_string(), "gone".to_string()]);
    let issues = oracle::evaluate(&state);
    assert!(issues.iter().any(|i| i.code == "NODE_VERSION_MISMATCH"));
}

#[test]
fn import_pattern_is_read_literally() {
    let files = vec![
        ("src/main.rs".to_string(), "use\\scrate::graph;\nuse crate::models;\n".to_string()),
    ];
    let graph = deps::collect_graph(&files);
    assert_eq!(graph.0.len(), 1);
    assert_eq!(graph.0[0].0, "main");
    assert_eq!(graph.0[0].1, vec!["graph".to_string()]);
}

#[test]
fn scan_summary_counts_statuses() {
    let state = scan(&MockProvider::new());
    assert_eq!(
        preflight::graph::summarize(&state),
        "Nodes: active=1, inactive=7, conflict=0. Issues detected: 0."
    );
}

#[test]
fn python_requirements_are_checked() {
    let mut provider = MockProvider::new();
    provider.commands.insert("python".into(), "Python 3.11.4\nrequests==2.31.0\nDjango==3.1.0".into());
    provider.files.insert(
        "requirements.txt".into(),
        "requests==2.31.0\ndjango>=3.2\nnumpy\n# comment\n".into(),
    );
    let state = scan(&provider);
    let py = state.nodes.iter().find(|n| n.id == "python").unwrap();
    assert_eq!(py.status, Status::Active);
    let get = |key: &str| py.metadata.iter().find(|(k, _)| k == key).map(|(_, v)| v.clone()).unwrap();
    match get("python_requirements_missing") {
        Json::Arr(items) => assert!(matches!(&items[..], [Json::Str(s)] if s == "numpy")),
        _ => panic!("missing list expected"),
    }
    match get("python_requirements_drift") {
        Json::Arr(items) => assert_eq!(items.len(), 1),
        _ => panic!("drift list expected"),
    }
    let issues = oracle::evaluate(&state);
    assert!(issues.iter().any(|i| i.code == "PYTHON_PACKAGE_MISSING"));
    assert!(issues.iter().any(|i| i.code == "PYTHON_REQUIREMENTS_DRIFT"));
    assert!(issues.iter().any(|i| i.code == "PYTHON_NO_ENV"));
}

#[test]
fn failed_bind_marks_port_active() {
    let provider = MockProvider::new();
    let binds = BindResults { port5432_free: true, port6379_free: true, port8000_free: false };
    let state = scanner::perform_scan_with_provider(&provider, &env(), &binds, "now".to_string(), "linux");
    let port = state.nodes.iter().find(|n| n.id == "port8000").unwrap();
    assert_eq!(port.status, Status::Active);
    let free = scan(&provider);
    assert_eq!(free.nodes.iter().find(|n| n.id == "port8000").unwrap().status, Status::Inactive);
    assert_eq!(scanner::check_port(&provider, 8000, false), Status::Active);
    assert_eq!(scanner::check_port(&provider, 8000, true), Status::Inactive);
    assert_eq!(free.fingerprint.len(), 64);
    assert!(free.assert_contract().is_ok());
}

#[test]
fn probe_decisions() {
    assert_eq!(
        scanner::port_probe_command(8000),
        "ss -ltn sport = :8000 || (netstat -ltn 2>/dev/null | grep :8000)"
    );
    assert!(scanner::lockfile_stale(true, true, Some(5), Some(3)));
    assert!(!scanner::lockfile_stale(true, true, Some(3), Some(5)));
    assert!(!scanner::lockfile_stale(true, false, Some(5), Some(3)));
    assert!(!scanner::lockfile_stale(true, true, None, Some(3)));
    let c = vec![("a".to_string(), false), ("b".to_string(), true), ("c".to_string(), true)];
    assert_eq!(scanner::pick_first(&c), Some("b".to_string()));
    assert_eq!(scanner::manifest_path("left-pad"), "node_modules/left-pad/package.json");
    let items = vec![("a".to_string(), Some("1".to_string())), ("b".to_string(), None)];
    assert_eq!(scanner::string_entries(&items), vec![("a".to_string(), "1".to_string())]);
    assert_eq!(
        scanner::cudnn_from(Some("nothing".into()), Some("#define CUDNN_MAJOR 7\n".into())),
        Some("7.0.0".to_string())
    );
    assert_eq!(deps::crate_import("use\\sscrate::graph_x;"), Some("graph_x".to_string()));
    assert_eq!(deps::crate_import("use crate::graph;"), None);
    assert_eq!(deps::crate_import("use\\crate::graph;"), None);
}

#[test]
fn empty_module_is_reported_first() {
    let v = validate::validate_content("src/a.rs", "  \n");
    assert_eq!(v[0].message, "Empty module");
    assert!(validate::validate_content("src/a.rs", "fn f() {}\n").is_empty());
}
