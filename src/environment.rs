//! Checking a state against a declared environment specification.
use crate::json::{get_bool, get_str};
use crate::models::{Node, SystemState};
use crate::scanner::{semver_match, semver_match_of};
use crate::text::{str_eq, strip_leading, strip_leading_exec, trim, trim_seq};
use vstd::prelude::*;

verus! {

#[derive(Debug, Clone)]
pub struct DockerSpec {
    pub required_api: Option<String>,
    pub required_compose: Option<String>,
}

#[derive(Debug, Clone)]
pub struct NodeSpec {
    pub min_version: Option<String>,
}

#[derive(Debug, Clone)]
pub struct GpuSpec {
    pub allow_amd: Option<bool>,
    pub allow_intel: Option<bool>,
}

#[derive(Debug, Clone)]
pub struct EnvSpec {
    pub docker: Option<DockerSpec>,
    pub node: Option<NodeSpec>,
    pub gpu: Option<GpuSpec>,
}

/// One way the state departs from the specification.
#[derive(Debug, Clone)]
pub struct EnvViolation {
    pub kind: String,
    pub expected: String,
    pub actual: String,
}

fn violation(kind: &str, expected: String, actual: String) -> (r: EnvViolation)
    ensures
        r.kind@ == kind@,
        r.expected@ == expected@,
        r.actual@ == actual@,
{
    EnvViolation { kind: String::from_str(kind), expected, actual }
}

/// Whether `actual` (white space and a leading `v` dropped) meets the semantic-version
/// requirement; `false` where either does not parse.
pub fn compare_versions(requirement: &str, actual: &str) -> (r: bool)
    ensures
        r == (match semver_match_of(requirement@, strip_leading(trim_seq(actual@), 'v')) {
            Some(b) => b,
            None => false,
        }),
{
    let cleaned = strip_leading_exec(trim(actual).as_str(), 'v');
    match semver_match(requirement, cleaned.as_str()) {
        Some(b) => b,
        None => false,
    }
}

fn find_node<'a>(state: &'a SystemState, id: &str) -> Option<&'a Node> {
    let mut i: usize = 0;
    while i < state.nodes.len()
        invariant
            i <= state.nodes@.len(),
        decreases state.nodes@.len() - i,
    {
        if str_eq(state.nodes[i].id.as_str(), id) {
            return Some(&state.nodes[i]);
        }
        i += 1;
    }
    None
}

fn text_or_empty(v: Option<&String>) -> String {
    match v {
        Some(s) => s.clone(),
        None => String::new(),
    }
}

fn check_requirement(out: &mut Vec<EnvViolation>, kind: &str, required: &String, actual: String) {
    if actual.unicode_len() == 0 || !compare_versions(required.as_str(), actual.as_str()) {
        out.push(violation(kind, required.clone(), actual));
    }
}

fn validate_docker(spec: &DockerSpec, state: &SystemState, out: &mut Vec<EnvViolation>) {
    match find_node(state, "docker") {
        Some(docker) => {
            if let Some(required) = &spec.required_api {
                let actual = text_or_empty(get_str(&docker.metadata, "docker_api_version"));
                check_requirement(out, "docker_api", required, actual);
            }
            if let Some(required) = &spec.required_compose {
                let actual = text_or_empty(get_str(&docker.metadata, "compose_version"));
                check_requirement(out, "docker_compose", required, actual);
            }
        },
        None => {
            if let Some(required) = &spec.required_api {
                out.push(violation("docker_api", required.clone(), String::from_str("missing")));
            }
            if let Some(required) = &spec.required_compose {
                out.push(violation("docker_compose", required.clone(), String::from_str("missing")));
            }
        },
    }
}

fn validate_node(spec: &NodeSpec, state: &SystemState, out: &mut Vec<EnvViolation>) {
    if let Some(min_version) = &spec.min_version {
        let actual = match find_node(state, "nodejs") {
            Some(n) => text_or_empty(get_str(&n.metadata, "version")),
            None => String::new(),
        };
        check_requirement(out, "node_version", min_version, actual);
    }
}

fn validate_gpu(spec: &GpuSpec, state: &SystemState, out: &mut Vec<EnvViolation>) {
    let node = find_node(state, "gpu");
    if let Some(allow_amd) = spec.allow_amd {
        let detected = match node {
            Some(n) => get_bool(&n.metadata, "amd_gpu_detected"),
            None => false,
        };
        if detected && !allow_amd {
            out.push(violation(
                "gpu_vendor",
                String::from_str("amd disallowed"),
                String::from_str("amd detected"),
            ));
        }
    }
    if let Some(allow_intel) = spec.allow_intel {
        let detected = match node {
            Some(n) => get_bool(&n.metadata, "intel_gpu_detected"),
            None => false,
        };
        if detected && !allow_intel {
            out.push(violation(
                "gpu_vendor",
                String::from_str("intel disallowed"),
                String::from_str("intel detected"),
            ));
        }
    }
}

/// The violations of `spec` in `state`: Docker, then Node.js, then GPU checks.
pub fn evaluate_spec(spec: &EnvSpec, state: &SystemState) -> (r: Vec<EnvViolation>)
    ensures
        spec.docker is None && spec.node is None && spec.gpu is None ==> r@.len() == 0,
{
    let mut out: Vec<EnvViolation> = Vec::new();
    if let Some(d) = &spec.docker {
        validate_docker(d, state, &mut out);
    }
    if let Some(n) = &spec.node {
        validate_node(n, state, &mut out);
    }
    if let Some(g) = &spec.gpu {
        validate_gpu(g, state, &mut out);
    }
    out
}

} // verus!
