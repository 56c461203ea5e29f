//! Rule evaluation: the diagnostics that a state's nodes give rise to.
use crate::json::{
    entries_view, entry_arr, entry_bool, entry_str, find_key, get_arr, get_bool, get_entry,
    get_str, lemma_list_view, list_view, Json, JsonV,
};
use crate::models::{issues_view, Issue, IssueV, Node, NodeV, Severity, Status};
use crate::text::{
    concat, contains, contains_seq, ends_with, ends_with_seq, first_word,
    first_word_exec, lines, lines_of, lower_of, parse_u64, parse_u64_spec, second_piece,
    second_piece_exec, split_char, split_on, strip_leading, strip_leading_exec, strip_trailing,
    strip_trailing_exec, str_eq, to_lower, trim, trim_seq,
};
use vstd::prelude::*;

verus! {

/// The (code, severity) pair that identifies a finding.
pub open spec fn finding(i: IssueV) -> (Seq<char>, Severity, Seq<char>) {
    (i.code, i.severity, i.title)
}

pub open spec fn findings(v: Seq<IssueV>) -> Seq<(Seq<char>, Severity, Seq<char>)> {
    v.map_values(|i: IssueV| finding(i))
}

pub open spec fn when(b: bool, code: Seq<char>, title: Seq<char>, sev: Severity) -> Seq<(Seq<char>, Severity, Seq<char>)> {
    if b {
        seq![(code, sev, title)]
    } else {
        Seq::empty()
    }
}

pub open spec fn warn_if(b: bool, code: Seq<char>, title: Seq<char>) -> Seq<(Seq<char>, Severity, Seq<char>)> {
    when(b, code, title, Severity::Warning)
}

// ---------------------------------------------------------------- versions

/// `(major, minor)` of a version string such as `v1.41` or `3.9`: surrounding white
/// space and leading `v`s dropped, a missing minor read as 0.
pub open spec fn version_pair(raw: Seq<char>) -> Option<(u64, u64)> {
    let parts = split_char(strip_leading(trim_seq(raw), 'v'), '.');
    let major = parse_u64_spec(parts[0]);
    let minor = if parts.len() > 1 {
        parse_u64_spec(parts[1])
    } else {
        Some(0u64)
    };
    match (major, minor) {
        (Some(a), Some(b)) => Some((a, b)),
        _ => None,
    }
}

pub fn parse_version_pair(raw: &str) -> (r: Option<(u64, u64)>)
    ensures
        r == version_pair(raw@),
{
    let t = trim(raw);
    let clean = strip_leading_exec(t.as_str(), 'v');
    let parts = split_on(clean.as_str(), '.');
    proof {
        crate::text::lemma_split_char_nonempty(clean@, '.');
        assert(parts@[0]@ == parts@.map_values(|x: String| x@)[0]);
    }
    let major = match parse_u64(parts[0].as_str()) {
        Some(m) => m,
        None => return None,
    };
    let minor = if parts.len() > 1 {
        assert(parts@[1]@ == parts@.map_values(|x: String| x@)[1]);
        match parse_u64(parts[1].as_str()) {
            Some(m) => m,
            None => return None,
        }
    } else {
        0
    };
    Some((major, minor))
}

pub open spec fn meets(api: (u64, u64), required: (u64, u64)) -> bool {
    api.0 > required.0 || (api.0 == required.0 && api.1 >= required.1)
}

pub fn api_meets_requirement(api: (u64, u64), required: (u64, u64)) -> (r: bool)
    ensures
        r == meets(api, required),
{
    api.0 > required.0 || (api.0 == required.0 && api.1 >= required.1)
}

/// The Docker Engine API version that a Compose file version needs.
pub open spec fn required_api(compose: Seq<char>) -> Option<(u64, u64)> {
    match version_pair(compose) {
        Some((major, _)) => if major >= 3 {
            Some((1u64, 25u64))
        } else if major >= 2 {
            Some((1u64, 22u64))
        } else {
            None
        },
        None => None,
    }
}

pub fn required_api_for_compose(compose_version: &str) -> (r: Option<(u64, u64)>)
    ensures
        r == required_api(compose_version@),
{
    match parse_version_pair(compose_version) {
        Some((major, _)) => if major >= 3 {
            Some((1, 25))
        } else if major >= 2 {
            Some((1, 22))
        } else {
            None
        },
        None => None,
    }
}

/// Compose drift: the Compose file needs a newer API than the engine reported, or the
/// engine reported none that can be read.
pub open spec fn compose_drift(md: Seq<(Seq<char>, JsonV)>) -> bool {
    match entry_str(md, "compose_version"@) {
        Some(cv) => match required_api(cv) {
            Some(req) => match entry_str(md, "docker_api_version"@) {
                Some(api) => match version_pair(api) {
                    Some(a) => !meets(a, req),
                    None => true,
                },
                None => true,
            },
            None => false,
        },
        None => false,
    }
}

// ---------------------------------------------------------------- metadata shapes

pub open spec fn has_str_item(a: Option<Seq<JsonV>>) -> bool {
    match a {
        Some(s) => exists|i: int| 0 <= i < s.len() && (#[trigger] s[i] is Str),
        None => false,
    }
}

/// A drift record: an object with a string `name` and a `required` entry, and where
/// `installed_needed`, an `installed` entry too.
pub open spec fn drift_record(e: JsonV, installed_needed: bool) -> bool {
    match e {
        JsonV::Obj(f) => entry_str(f, "name"@) is Some && find_key(f, "required"@) is Some && (
        !installed_needed || find_key(f, "installed"@) is Some),
        _ => false,
    }
}

pub open spec fn any_drift_record(s: Seq<JsonV>, installed_needed: bool) -> bool
    decreases s.len(),
{
    if s.len() == 0 {
        false
    } else {
        any_drift_record(s.drop_last(), installed_needed) || drift_record(s.last(), installed_needed)
    }
}

pub open spec fn has_drift_record(a: Option<Seq<JsonV>>, installed_needed: bool) -> bool {
    match a {
        Some(s) => any_drift_record(s, installed_needed),
        None => false,
    }
}

pub open spec fn arr_len(md: Seq<(Seq<char>, JsonV)>, k: Seq<char>) -> int {
    match entry_arr(md, k) {
        Some(a) => a.len() as int,
        None => 0,
    }
}

pub open spec fn env_count(md: Seq<(Seq<char>, JsonV)>) -> int {
    (if entry_bool(md, "venv"@) { 1int } else { 0int }) + (if entry_bool(md, "pipenv"@) {
        1int
    } else {
        0int
    }) + (if entry_bool(md, "poetry"@) { 1int } else { 0int }) + (if entry_bool(md, "conda"@) {
        1int
    } else {
        0int
    })
}

/// Bytes that a Redis `maxmemory` value (already lower-cased) stands for.
pub open spec fn maxmemory_bytes(l: Seq<char>) -> Option<int> {
    if ends_with_seq(l, "mb"@) {
        match parse_u64_spec(trim_seq(strip_trailing(l, "mb"@))) {
            Some(m) => Some(m * 1048576),
            None => None,
        }
    } else if ends_with_seq(l, "gb"@) {
        match parse_u64_spec(trim_seq(strip_trailing(l, "gb"@))) {
            Some(g) => Some(g * 1073741824),
            None => None,
        }
    } else {
        match parse_u64_spec(trim_seq(l)) {
            Some(b) => Some(b as int),
            None => None,
        }
    }
}

pub open spec fn memory_low(md: Seq<(Seq<char>, JsonV)>) -> bool {
    match entry_str(md, "maxmemory"@) {
        Some(m) => match maxmemory_bytes(lower_of(m)) {
            Some(b) => b < 268435456,
            None => false,
        },
        None => false,
    }
}

/// The CUDA version that the first `CUDA Version:` line of `nvidia-smi` output names.
pub open spec fn smi_cuda(ls: Seq<Seq<char>>) -> Option<Seq<char>>
    decreases ls.len(),
{
    if ls.len() == 0 {
        None
    } else if contains_seq(ls[0], "CUDA Version"@) && second_piece(ls[0], "CUDA Version:"@) is Some {
        Some(first_word(second_piece(ls[0], "CUDA Version:"@)->0))
    } else {
        smi_cuda(ls.drop_first())
    }
}

pub open spec fn cuda_mismatch(md: Seq<(Seq<char>, JsonV)>) -> bool {
    match (entry_str(md, "cuda_version"@), entry_str(md, "nvidia_smi"@)) {
        (Some(cuda), Some(smi)) => match smi_cuda(lines_of(smi)) {
            Some(t) => t.len() > 0 && !contains_seq(cuda, t),
            None => false,
        },
        _ => false,
    }
}

// ---------------------------------------------------------------- rules

pub open spec fn python_rules(n: NodeV) -> Seq<(Seq<char>, Severity, Seq<char>)> {
    let md = n.metadata;
    if n.status == Status::Active {
        warn_if(env_count(md) > 1, "PYTHON_MULTIPLE_ENV"@, "Multiple Python environments active"@) + warn_if(
            env_count(md) == 0,
            "PYTHON_NO_ENV"@, "No Python environment detected"@,
        ) + warn_if(
            has_str_item(entry_arr(md, "python_requirements_missing"@)),
            "PYTHON_PACKAGE_MISSING"@, "Python packages missing"@,
        ) + warn_if(
            has_drift_record(entry_arr(md, "python_requirements_drift"@), true),
            "PYTHON_REQUIREMENTS_DRIFT"@, "Python dependency drift"@,
        ) + warn_if(entry_bool(md, "python_lockfile_drift"@), "PYTHON_LOCKFILE_DRIFT"@, "Python lockfile drift"@)
            + warn_if(
            entry_str(md, "version"@) is Some && entry_str(md, "python3_version"@) is Some
                && entry_str(md, "version"@) != entry_str(md, "python3_version"@),
            "PYTHON_VERSION_DRIFT"@, "Python version drift"@,
        )
    } else {
        Seq::empty()
    }
}

pub open spec fn nodejs_rules(n: NodeV) -> Seq<(Seq<char>, Severity, Seq<char>)> {
    let md = n.metadata;
    if n.status != Status::Active {
        warn_if(true, "NODEJS_INACTIVE"@, "Node.js unavailable"@)
    } else {
        warn_if(!entry_bool(md, "package_json_present"@), "NODE_PACKAGE_MISSING"@, "package.json missing"@) + warn_if(entry_bool(md, "node_modules_mismatch"@), "NODE_LOCKFILE_DRIFT"@, "Dependencies not installed"@)
            + warn_if(
            !entry_bool(md, "node_modules_mismatch"@) && entry_bool(md, "lockfile_drift"@),
            "NODE_LOCKFILE_DRIFT"@,
            "Lockfile out of date"@,
        ) + warn_if(
            has_drift_record(entry_arr(md, "node_version_mismatches"@), false),
            "NODE_VERSION_MISMATCH"@, "Node dependency drift"@,
        )
    }
}

pub open spec fn postgres_rules(n: NodeV) -> Seq<(Seq<char>, Severity, Seq<char>)> {
    let md = n.metadata;
    warn_if(entry_bool(md, "port_bound"@), "POSTGRES_PORT_BOUND"@, "PostgreSQL port bound"@) + warn_if(
        arr_len(md, "processes"@) > 1,
        "POSTGRES_MULTI_INSTANCE"@, "Multiple PostgreSQL processes"@,
    ) + warn_if(arr_len(md, "installed_versions"@) > 1, "POSTGRES_VERSION_DRIFT"@, "Multiple PostgreSQL versions installed"@) + warn_if(
        n.status != Status::Active,
        "POSTGRES_INACTIVE"@, "PostgreSQL unavailable"@,
    )
}

pub open spec fn redis_rules(n: NodeV) -> Seq<(Seq<char>, Severity, Seq<char>)> {
    let md = n.metadata;
    warn_if(entry_bool(md, "port_bound"@), "REDIS_PORT_BOUND"@, "Redis port bound"@) + warn_if(
        entry_str(md, "config_path"@) is None,
        "REDIS_CONFIG_MISSING"@, "redis.conf missing"@,
    ) + warn_if(memory_low(md), "REDIS_MEMORY_LOW"@, "Redis memory limit low"@) + warn_if(
        n.status != Status::Active,
        "REDIS_INACTIVE"@, "Redis unavailable"@,
    )
}

pub open spec fn gpu_rules(n: NodeV) -> Seq<(Seq<char>, Severity, Seq<char>)> {
    let md = n.metadata;
    if n.status != Status::Active {
        warn_if(true, "GPU_MISSING"@, "GPU unavailable"@)
    } else {
        warn_if(entry_bool(md, "amd_gpu_detected"@), "GPU_AMD_DETECTED"@, "AMD GPU detected"@) + warn_if(
            entry_bool(md, "intel_gpu_detected"@),
            "GPU_INTEL_DETECTED"@, "Intel integrated graphics detected"@,
        ) + warn_if(cuda_mismatch(md), "CUDA_VERSION_MISMATCH"@, "CUDA version mismatch"@) + warn_if(
            entry_str(md, "cudnn_version"@) is None,
            "CUDNN_MISSING"@, "cuDNN missing"@,
        )
    }
}

/// What one node gives rise to, in the order the rules are applied.
pub open spec fn node_rules(n: NodeV) -> Seq<(Seq<char>, Severity, Seq<char>)> {
    warn_if(n.id == "docker"@ && n.status != Status::Active, "DOCKER_INACTIVE"@, "Docker daemon inactive"@) + warn_if(
        n.id == "docker"@ && compose_drift(n.metadata),
        "DOCKER_COMPOSE_DRIFT"@, "Docker Compose version exceeds API support"@,
    ) + when(
        n.id == "port8000"@ && n.status == Status::Active,
        "PORT_8000_BOUND"@, "Port 8000 conflict"@,
        Severity::Critical,
    ) + if n.id == "python"@ {
        python_rules(n)
    } else if n.id == "nodejs"@ {
        nodejs_rules(n)
    } else if n.id == "postgres"@ {
        postgres_rules(n)
    } else if n.id == "redis"@ {
        redis_rules(n)
    } else if n.id == "gpu"@ {
        gpu_rules(n)
    } else {
        Seq::empty()
    }
}

/// What a sequence of nodes gives rise to, node by node.
pub open spec fn all_rules(nodes: Seq<NodeV>) -> Seq<(Seq<char>, Severity, Seq<char>)>
    decreases nodes.len(),
{
    if nodes.len() == 0 {
        Seq::empty()
    } else {
        all_rules(nodes.drop_last()) + node_rules(nodes.last())
    }
}

// ---------------------------------------------------------------- building issues

pub open spec fn opt_list(a: Option<&Vec<Json>>) -> Option<Seq<JsonV>> {
    match a {
        Some(v) => Some(list_view(*v)),
        None => None,
    }
}

proof fn lemma_findings_push(a: Seq<IssueV>, x: IssueV)
    ensures
        findings(a.push(x)) == findings(a).push(finding(x)),
{
    assert(findings(a.push(x)) =~= findings(a).push(finding(x)));
}

/// Appends one issue.
fn emit(
    out: &mut Vec<Issue>,
    code: &str,
    severity: Severity,
    title: &str,
    description: String,
    suggestion: &str,
)
    requires
        code@.len() > 0,
        title@.len() > 0,
    ensures
        named(old(out)@) ==> named(final(out)@),
        findings(issues_view(final(out)@)) == findings(issues_view(old(out)@)).push(
            (code@, severity, title@),
        ),
        final(out)@.len() == old(out)@.len() + 1,
        issues_view(final(out)@).take(old(out)@.len() as int) == issues_view(old(out)@),
{
    let ghost before = out@;
    let issue = Issue::new(code, severity, title, description, suggestion);
    out.push(issue);
    proof {
        assert(issues_view(out@) =~= issues_view(before).push(issue@));
        assert(issues_view(out@).take(before.len() as int) =~= issues_view(before));
        lemma_findings_push(issues_view(before), issue@);
    }
}

/// Every issue has a non-empty code and title.
pub open spec fn named(v: Seq<Issue>) -> bool {
    forall|i: int| 0 <= i < v.len() ==> (#[trigger] v[i]).code@.len() > 0 && v[i].title@.len() > 0
}

/// Decimal digits of `n`.
pub fn decimal(n: u64) -> (r: String)
    ensures
        r@ == crate::encode::dec(n),
{
    let mut s = String::new();
    crate::encode::push_dec(&mut s, n);
    assert(s@ =~= crate::encode::dec(n));
    s
}

/// The parts with `sep` between them.
pub open spec fn joined(parts: Seq<Seq<char>>, sep: Seq<char>) -> Seq<char>
    decreases parts.len(),
{
    if parts.len() == 0 {
        Seq::empty()
    } else if parts.len() == 1 {
        parts[0]
    } else {
        joined(parts.drop_last(), sep) + sep + parts.last()
    }
}

/// Joins the parts with `sep` between them.
pub fn join(parts: &Vec<String>, sep: &str) -> (r: String)
    ensures
        r@ == joined(parts@.map_values(|p: String| p@), sep@),
{
    let ghost pv = parts@.map_values(|p: String| p@);
    let mut s = String::new();
    let mut i: usize = 0;
    assert(pv.take(0) =~= Seq::<Seq<char>>::empty());
    while i < parts.len()
        invariant
            pv == parts@.map_values(|p: String| p@),
            i <= parts.len(),
            s@ == joined(pv.take(i as int), sep@),
        decreases parts.len() - i,
    {
        assert(pv.take(i + 1).drop_last() =~= pv.take(i as int));
        if i > 0 {
            s.append(sep);
        }
        s.append(parts[i].as_str());
        i += 1;
        assert(i == 1 ==> s@ =~= pv.take(1)[0]);
    }
    assert(pv.take(parts.len() as int) =~= pv);
    s
}

/// The string items of an array entry.
fn string_items(a: Option<&Vec<Json>>) -> (r: Vec<String>)
    ensures
        r.len() > 0 <==> has_str_item(opt_list(a)),
{
    let mut out: Vec<String> = Vec::new();
    match a {
        None => out,
        Some(v) => {
            proof {
                lemma_list_view(*v, v.len() as nat);
            }
            let ghost lv = list_view(*v);
            let mut i: usize = 0;
            while i < v.len()
                invariant
                    lv == list_view(*v),
                    lv.len() == v.len(),
                    forall|j: int| 0 <= j < v.len() ==> #[trigger] lv[j] == v[j]@,
                    i <= v.len(),
                    out.len() > 0 <==> exists|j: int| 0 <= j < i && (#[trigger] lv[j] is Str),
                decreases v.len() - i,
            {
                let found = match &v[i] {
                    Json::Str(x) => {
                        out.push(x.clone());
                        true
                    },
                    _ => false,
                };
                assert(found == (lv[i as int] is Str));
                i += 1;
            }
            out
        },
    }
}

/// `name (required -> installed)`; a missing installed version reads `missing` where it
/// may be absent.
fn drift_text(name: &String, required: &Json, installed: Option<&Json>, installed_needed: bool) -> String {
    let mut d = name.clone();
    d.append(" (");
    if let Json::Str(x) = required {
        d.append(x.as_str());
    }
    d.append(" -> ");
    match installed {
        Some(Json::Str(x)) => d.append(x.as_str()),
        _ => if !installed_needed {
            d.append("missing");
        },
    }
    d.append(")");
    d
}

/// `name (required -> installed)` for each drift record of an array entry.
fn drift_details(a: Option<&Vec<Json>>, installed_needed: bool) -> (r: Vec<String>)
    ensures
        r.len() > 0 <==> has_drift_record(opt_list(a), installed_needed),
{
    let mut out: Vec<String> = Vec::new();
    match a {
        None => {
            assert(out@.len() == 0);
            assert(!has_drift_record(opt_list(a), installed_needed));
            out
        },
        Some(v) => {
            proof {
                lemma_list_view(*v, v.len() as nat);
            }
            let ghost lv = list_view(*v);
            let mut i: usize = 0;
            assert(lv.take(0) =~= Seq::<JsonV>::empty());
            while i < v.len()
                invariant
                    lv == list_view(*v),
                    lv.len() == v.len(),
                    forall|j: int| 0 <= j < v.len() ==> #[trigger] lv[j] == v[j]@,
                    i <= v.len(),
                    out.len() > 0 <==> any_drift_record(lv.take(i as int), installed_needed),
                decreases v.len() - i,
            {
                let found = match &v[i] {
                    Json::Obj(f) => {
                        let name = get_str(f, "name");
                        let required = get_entry(f, "required");
                        let installed = get_entry(f, "installed");
                        match (name, required) {
                            (Some(name), Some(required)) => {
                                if !installed_needed || installed.is_some() {
                                    out.push(drift_text(name, required, installed, installed_needed));
                                    true
                                } else {
                                    false
                                }
                            },
                            _ => false,
                        }
                    },
                    _ => false,
                };
                assert(found == drift_record(lv[i as int], installed_needed));
                assert(lv.take(i + 1).drop_last() =~= lv.take(i as int));
                i += 1;
            }
            assert(opt_list(a) == Some(lv));
            assert(lv.take(v.len() as int) =~= lv);
            out
        },
    }
}

fn array_len(md: &Vec<(String, Json)>, key: &str) -> (r: usize)
    ensures
        r as int == arr_len(entries_view(*md), key@),
{
    match get_arr(md, key) {
        Some(a) => {
            proof {
                lemma_list_view(*a, a.len() as nat);
            }
            a.len()
        },
        None => 0,
    }
}

fn count_envs(md: &Vec<(String, Json)>) -> (r: u8)
    ensures
        r as int == env_count(entries_view(*md)),
{
    let mut n: u8 = 0;
    if get_bool(md, "venv") {
        n += 1;
    }
    if get_bool(md, "pipenv") {
        n += 1;
    }
    if get_bool(md, "poetry") {
        n += 1;
    }
    if get_bool(md, "conda") {
        n += 1;
    }
    n
}

/// Whether a Redis `maxmemory` value is below 256 MiB.
fn is_memory_low(mem: &str) -> (r: bool)
    ensures
        r == (match maxmemory_bytes(lower_of(mem@)) {
            Some(b) => b < 268435456,
            None => false,
        }),
{
    let l = to_lower(mem);
    if ends_with(l.as_str(), "mb") {
        let t = trim(strip_trailing_exec(l.as_str(), "mb").as_str());
        match parse_u64(t.as_str()) {
            Some(m) => m < 256,
            None => false,
        }
    } else if ends_with(l.as_str(), "gb") {
        let t = trim(strip_trailing_exec(l.as_str(), "gb").as_str());
        match parse_u64(t.as_str()) {
            Some(g) => g < 1,
            None => false,
        }
    } else {
        let t = trim(l.as_str());
        match parse_u64(t.as_str()) {
            Some(b) => b < 268435456,
            None => false,
        }
    }
}

/// The CUDA version that `nvidia-smi` output reports.
fn smi_cuda_version(smi: &str) -> (r: Option<String>)
    ensures
        smi_cuda(lines_of(smi@)) == (match r {
            Some(x) => Some(x@),
            None => None::<Seq<char>>,
        }),
{
    let ls = lines(smi);
    let ghost lv = ls@.map_values(|x: String| x@);
    assert(lv.skip(0) =~= lv);
    let mut i: usize = 0;
    while i < ls.len()
        invariant
            lv == ls@.map_values(|x: String| x@),
            lv == lines_of(smi@),
            i <= ls.len(),
            smi_cuda(lv) == smi_cuda(lv.skip(i as int)),
        decreases ls.len() - i,
    {
        let l = ls[i].as_str();
        assert(lv.skip(i as int)[0] == l@);
        assert(lv.skip(i as int).drop_first() =~= lv.skip(i + 1));
        if contains(l, "CUDA Version") {
            if let Some(piece) = second_piece_exec(l, "CUDA Version:") {
                return Some(first_word_exec(piece.as_str()));
            }
        }
        i += 1;
    }
    None
}

#[verifier::rlimit(60)]
fn python_issues(node: &Node, out: &mut Vec<Issue>)
    ensures
        named(old(out)@) ==> named(final(out)@),
        findings(issues_view(final(out)@)) == findings(issues_view(old(out)@)) + python_rules(
            node@,
        ),
{
    let ghost base = findings(issues_view(out@));
    if node.status != Status::Active {
        assert(findings(issues_view(out@)) =~= base + python_rules(node@));
        return;
    }
    let md_ref = &node.metadata;
    let envs = count_envs(md_ref);
    let c1 = envs > 1;
    if c1 {
        proof {
            reveal_strlit("PYTHON_MULTIPLE_ENV");
            reveal_strlit("Multiple Python environments active");
        }
        emit(
            out,
            "PYTHON_MULTIPLE_ENV",
            Severity::Warning,
            "Multiple Python environments active",
            String::from_str("More than one Python environment tool detected simultaneously."),
            "Deactivate extra environments and keep a single manager active.",
        );
    }
    let ghost s1 = base + warn_if(c1, "PYTHON_MULTIPLE_ENV"@, "Multiple Python environments active"@);
    assert(findings(issues_view(out@)) =~= s1);
    let c2 = envs == 0;
    if c2 {
        proof {
            reveal_strlit("PYTHON_NO_ENV");
            reveal_strlit("No Python environment detected");
        }
        emit(
            out,
            "PYTHON_NO_ENV",
            Severity::Warning,
            "No Python environment detected",
            String::from_str("Python is installed but no virtual environment manager is active."),
            "Create and activate a virtual environment via venv, pipenv, poetry, or conda.",
        );
    }
    let ghost s2 = s1 + warn_if(c2, "PYTHON_NO_ENV"@, "No Python environment detected"@);
    assert(findings(issues_view(out@)) =~= s2);
    let missing = string_items(get_arr(md_ref, "python_requirements_missing"));
    let c3 = missing.len() > 0;
    if c3 {
        let mut d = String::from_str("requirements.txt lists missing packages: ");
        d.append(join(&missing, ", ").as_str());
        d.append(".");
        proof {
            reveal_strlit("PYTHON_PACKAGE_MISSING");
            reveal_strlit("Python packages missing");
        }
        emit(
            out,
            "PYTHON_PACKAGE_MISSING",
            Severity::Warning,
            "Python packages missing",
            d,
            "Install missing dependencies with pip install -r requirements.txt.",
        );
    }
    let ghost s3 = s2 + warn_if(c3, "PYTHON_PACKAGE_MISSING"@, "Python packages missing"@);
    assert(findings(issues_view(out@)) =~= s3);
    let drifts = drift_details(get_arr(md_ref, "python_requirements_drift"), true);
    let c4 = drifts.len() > 0;
    if c4 {
        let mut d = String::from_str("Installed packages do not satisfy requirements: ");
        d.append(join(&drifts, ", ").as_str());
        d.append(".");
        proof {
            reveal_strlit("PYTHON_REQUIREMENTS_DRIFT");
            reveal_strlit("Python dependency drift");
        }
        emit(
            out,
            "PYTHON_REQUIREMENTS_DRIFT",
            Severity::Warning,
            "Python dependency drift",
            d,
            "Reinstall dependencies with pip install -r requirements.txt or update pinned versions.",
        );
    }
    let ghost s4 = s3 + warn_if(c4, "PYTHON_REQUIREMENTS_DRIFT"@, "Python dependency drift"@);
    assert(findings(issues_view(out@)) =~= s4);
    let c5 = get_bool(md_ref, "python_lockfile_drift");
    if c5 {
        proof {
            reveal_strlit("PYTHON_LOCKFILE_DRIFT");
            reveal_strlit("Python lockfile drift");
        }
        emit(
            out,
            "PYTHON_LOCKFILE_DRIFT",
            Severity::Warning,
            "Python lockfile drift",
            String::from_str("Pipfile.lock or poetry.lock is older than its source manifest."),
            "Regenerate the lockfile with pipenv lock or poetry lock to capture current requirements.",
        );
    }
    let ghost s5 = s4 + warn_if(c5, "PYTHON_LOCKFILE_DRIFT"@, "Python lockfile drift"@);
    assert(findings(issues_view(out@)) =~= s5);
    let c6 = match (get_str(md_ref, "version"), get_str(md_ref, "python3_version")) {
        (Some(a), Some(b)) => !str_eq(a.as_str(), b.as_str()),
        _ => false,
    };
    if c6 {
        proof {
            reveal_strlit("PYTHON_VERSION_DRIFT");
            reveal_strlit("Python version drift");
        }
        emit(
            out,
            "PYTHON_VERSION_DRIFT",
            Severity::Warning,
            "Python version drift",
            String::from_str("python and python3 report different versions."),
            "Align python and python3 to the same version or adjust PATH.",
        );
    }
    assert(findings(issues_view(out@)) =~= s5 + warn_if(c6, "PYTHON_VERSION_DRIFT"@, "Python version drift"@));
    assert(findings(issues_view(out@)) =~= base + python_rules(node@));
}

fn nodejs_issues(node: &Node, out: &mut Vec<Issue>)
    ensures
        named(old(out)@) ==> named(final(out)@),
        findings(issues_view(final(out)@)) == findings(issues_view(old(out)@)) + nodejs_rules(
            node@,
        ),
{
    let ghost base = findings(issues_view(out@));
    if node.status != Status::Active {
        proof {
            reveal_strlit("NODEJS_INACTIVE");
            reveal_strlit("Node.js unavailable");
        }
        emit(
            out,
            "NODEJS_INACTIVE",
            Severity::Warning,
            "Node.js unavailable",
            String::from_str("Node.js was not detected during the scan."),
            "Install Node.js and ensure it is available on PATH.",
        );
        assert(findings(issues_view(out@)) =~= base + nodejs_rules(node@));
        return;
    }
    let md_ref = &node.metadata;
    let has_package_json = get_bool(md_ref, "package_json_present");
    let node_modules_mismatch = get_bool(md_ref, "node_modules_mismatch");
    let lockfile_drift = get_bool(md_ref, "lockfile_drift");
    if !has_package_json {
        proof {
            reveal_strlit("NODE_PACKAGE_MISSING");
            reveal_strlit("package.json missing");
        }
        emit(
            out,
            "NODE_PACKAGE_MISSING",
            Severity::Warning,
            "package.json missing",
            String::from_str("No package.json found for the Node.js workspace."),
            "Initialize the project with npm init or ensure package.json exists.",
        );
    }
    let ghost s1 = base + warn_if(!has_package_json, "NODE_PACKAGE_MISSING"@, "package.json missing"@);
    assert(findings(issues_view(out@)) =~= s1);
    if node_modules_mismatch {
        proof {
            reveal_strlit("NODE_LOCKFILE_DRIFT");
            reveal_strlit("Dependencies not installed");
        }
        emit(
            out,
            "NODE_LOCKFILE_DRIFT",
            Severity::Warning,
            "Dependencies not installed",
            String::from_str("package.json present but node_modules missing."),
            "Run npm install or your package manager to sync dependencies.",
        );
    } else if lockfile_drift {
        proof {
            reveal_strlit("NODE_LOCKFILE_DRIFT");
            reveal_strlit("Lockfile out of date");
        }
        emit(
            out,
            "NODE_LOCKFILE_DRIFT",
            Severity::Warning,
            "Lockfile out of date",
            String::from_str("package.json is newer than package-lock.json."),
            "Regenerate lockfile to reflect package.json changes.",
        );
    }
    let ghost s2 = s1 + warn_if(node_modules_mismatch, "NODE_LOCKFILE_DRIFT"@, "Dependencies not installed"@)
        + warn_if(!node_modules_mismatch && lockfile_drift, "NODE_LOCKFILE_DRIFT"@, "Lockfile out of date"@);
    assert(findings(issues_view(out@)) =~= s2);
    let details = drift_details(get_arr(md_ref, "node_version_mismatches"), false);
    let c3 = details.len() > 0;
    if c3 {
        let mut d = String::from_str("Installed Node modules do not satisfy package.json: ");
        d.append(join(&details, ", ").as_str());
        d.append(".");
        proof {
            reveal_strlit("NODE_VERSION_MISMATCH");
            reveal_strlit("Node dependency drift");
        }
        emit(
            out,
            "NODE_VERSION_MISMATCH",
            Severity::Warning,
            "Node dependency drift",
            d,
            "Install or update dependencies to satisfy declared semantic versions.",
        );
    }
    assert(findings(issues_view(out@)) =~= s2 + warn_if(c3, "NODE_VERSION_MISMATCH"@, "Node dependency drift"@));
    assert(findings(issues_view(out@)) =~= base + nodejs_rules(node@));
}

fn postgres_issues(node: &Node, out: &mut Vec<Issue>)
    ensures
        named(old(out)@) ==> named(final(out)@),
        findings(issues_view(final(out)@)) == findings(issues_view(old(out)@)) + postgres_rules(
            node@,
        ),
{
    let ghost base = findings(issues_view(out@));
    let md_ref = &node.metadata;
    let port_bound = get_bool(md_ref, "port_bound");
    let processes = array_len(md_ref, "processes");
    let versions = array_len(md_ref, "installed_versions");
    if port_bound {
        proof {
            reveal_strlit("POSTGRES_PORT_BOUND");
            reveal_strlit("PostgreSQL port bound");
        }
        emit(
            out,
            "POSTGRES_PORT_BOUND",
            Severity::Warning,
            "PostgreSQL port bound",
            String::from_str("Port 5432 is currently bound."),
            "Stop the conflicting PostgreSQL instance or update the port configuration.",
        );
    }
    let ghost s1 = base + warn_if(port_bound, "POSTGRES_PORT_BOUND"@, "PostgreSQL port bound"@);
    assert(findings(issues_view(out@)) =~= s1);
    if processes > 1 {
        proof {
            reveal_strlit("POSTGRES_MULTI_INSTANCE");
            reveal_strlit("Multiple PostgreSQL processes");
        }
        emit(
            out,
            "POSTGRES_MULTI_INSTANCE",
            Severity::Warning,
            "Multiple PostgreSQL processes",
            String::from_str("More than one PostgreSQL process detected."),
            "Consolidate to a single instance or ensure intentional multi-instance setup.",
        );
    }
    let ghost s2 = s1 + warn_if(processes > 1, "POSTGRES_MULTI_INSTANCE"@, "Multiple PostgreSQL processes"@);
    assert(findings(issues_view(out@)) =~= s2);
    if versions > 1 {
        proof {
            reveal_strlit("POSTGRES_VERSION_DRIFT");
            reveal_strlit("Multiple PostgreSQL versions installed");
        }
        emit(
            out,
            "POSTGRES_VERSION_DRIFT",
            Severity::Warning,
            "Multiple PostgreSQL versions installed",
            String::from_str("Detected multiple PostgreSQL versions on the system."),
            "Unify to a single supported PostgreSQL version.",
        );
    }
    let ghost s3 = s2 + warn_if(versions > 1, "POSTGRES_VERSION_DRIFT"@, "Multiple PostgreSQL versions installed"@);
    assert(findings(issues_view(out@)) =~= s3);
    let inactive = node.status != Status::Active;
    if inactive {
        proof {
            reveal_strlit("POSTGRES_INACTIVE");
            reveal_strlit("PostgreSQL unavailable");
        }
        emit(
            out,
            "POSTGRES_INACTIVE",
            Severity::Warning,
            "PostgreSQL unavailable",
            String::from_str("PostgreSQL was not detected during the scan."),
            "Install or start PostgreSQL and verify psql is reachable.",
        );
    }
    assert(findings(issues_view(out@)) =~= s3 + warn_if(inactive, "POSTGRES_INACTIVE"@, "PostgreSQL unavailable"@));
}

fn redis_issues(node: &Node, out: &mut Vec<Issue>)
    ensures
        named(old(out)@) ==> named(final(out)@),
        findings(issues_view(final(out)@)) == findings(issues_view(old(out)@)) + redis_rules(
            node@,
        ),
{
    let ghost base = findings(issues_view(out@));
    let md_ref = &node.metadata;
    let port_bound = get_bool(md_ref, "port_bound");
    let no_config = get_str(md_ref, "config_path").is_none();
    if port_bound {
        proof {
            reveal_strlit("REDIS_PORT_BOUND");
            reveal_strlit("Redis port bound");
        }
        emit(
            out,
            "REDIS_PORT_BOUND",
            Severity::Warning,
            "Redis port bound",
            String::from_str("Port 6379 is currently bound."),
            "Stop the conflicting Redis instance or adjust the configured port.",
        );
    }
    let ghost s1 = base + warn_if(port_bound, "REDIS_PORT_BOUND"@, "Redis port bound"@);
    assert(findings(issues_view(out@)) =~= s1);
    if no_config {
        proof {
            reveal_strlit("REDIS_CONFIG_MISSING");
            reveal_strlit("redis.conf missing");
        }
        emit(
            out,
            "REDIS_CONFIG_MISSING",
            Severity::Warning,
            "redis.conf missing",
            String::from_str("Redis configuration file was not found in standard locations."),
            "Create redis.conf under /etc/redis or /usr/local/etc/redis.",
        );
    }
    let ghost s2 = s1 + warn_if(no_config, "REDIS_CONFIG_MISSING"@, "redis.conf missing"@);
    assert(findings(issues_view(out@)) =~= s2);
    let low = match get_str(md_ref, "maxmemory") {
        Some(mem) => {
            let low = is_memory_low(mem.as_str());
            if low {
                let mut d = String::from_str("Redis maxmemory is set to ");
                d.append(mem.as_str());
                d.append(" (<256MB).");
                proof {
                    reveal_strlit("REDIS_MEMORY_LOW");
                    reveal_strlit("Redis memory limit low");
                }
                emit(
                    out,
                    "REDIS_MEMORY_LOW",
                    Severity::Warning,
                    "Redis memory limit low",
                    d,
                    "Increase Redis maxmemory to at least 256MB for stability.",
                );
            }
            low
        },
        None => false,
    };
    let ghost s3 = s2 + warn_if(low, "REDIS_MEMORY_LOW"@, "Redis memory limit low"@);
    assert(findings(issues_view(out@)) =~= s3);
    let inactive = node.status != Status::Active;
    if inactive {
        proof {
            reveal_strlit("REDIS_INACTIVE");
            reveal_strlit("Redis unavailable");
        }
        emit(
            out,
            "REDIS_INACTIVE",
            Severity::Warning,
            "Redis unavailable",
            String::from_str("Redis was not detected during the scan."),
            "Install or start Redis so redis-server or redis-cli are reachable.",
        );
    }
    assert(findings(issues_view(out@)) =~= s3 + warn_if(inactive, "REDIS_INACTIVE"@, "Redis unavailable"@));
}

fn gpu_issues(node: &Node, out: &mut Vec<Issue>)
    ensures
        named(old(out)@) ==> named(final(out)@),
        findings(issues_view(final(out)@)) == findings(issues_view(old(out)@)) + gpu_rules(
            node@,
        ),
{
    let ghost base = findings(issues_view(out@));
    if node.status != Status::Active {
        proof {
            reveal_strlit("GPU_MISSING");
            reveal_strlit("GPU unavailable");
        }
        emit(
            out,
            "GPU_MISSING",
            Severity::Warning,
            "GPU unavailable",
            String::from_str("No GPU was detected via nvidia-smi."),
            "Install GPU drivers or ensure the GPU is accessible to this environment.",
        );
        assert(findings(issues_view(out@)) =~= base + gpu_rules(node@));
        return;
    }
    let md_ref = &node.metadata;
    let amd = get_bool(md_ref, "amd_gpu_detected");
    let intel = get_bool(md_ref, "intel_gpu_detected");
    if amd {
        proof {
            reveal_strlit("GPU_AMD_DETECTED");
            reveal_strlit("AMD GPU detected");
        }
        emit(
            out,
            "GPU_AMD_DETECTED",
            Severity::Warning,
            "AMD GPU detected",
            String::from_str("An AMD GPU was detected via lspci."),
            "Ensure AMD drivers and ROCm are installed if required.",
        );
    }
    let ghost s1 = base + warn_if(amd, "GPU_AMD_DETECTED"@, "AMD GPU detected"@);
    assert(findings(issues_view(out@)) =~= s1);
    if intel {
        proof {
            reveal_strlit("GPU_INTEL_DETECTED");
            reveal_strlit("Intel integrated graphics detected");
        }
        emit(
            out,
            "GPU_INTEL_DETECTED",
            Severity::Warning,
            "Intel integrated graphics detected",
            String::from_str("Intel integrated graphics hardware reported by lspci."),
            "Install appropriate Intel graphics drivers if needed.",
        );
    }
    let ghost s2 = s1 + warn_if(intel, "GPU_INTEL_DETECTED"@, "Intel integrated graphics detected"@);
    assert(findings(issues_view(out@)) =~= s2);
    let mismatch = match (get_str(md_ref, "cuda_version"), get_str(md_ref, "nvidia_smi")) {
        (Some(cuda), Some(smi)) => match smi_cuda_version(smi.as_str()) {
            Some(t) => {
                let m = t.unicode_len() > 0 && !contains(cuda.as_str(), t.as_str());
                if m {
                    let mut d = String::from_str("nvcc reports ");
                    d.append(cuda.as_str());
                    d.append(" but nvidia-smi shows ");
                    d.append(t.as_str());
                    d.append(".");
                    proof {
                        reveal_strlit("CUDA_VERSION_MISMATCH");
                        reveal_strlit("CUDA version mismatch");
                    }
                    emit(
                        out,
                        "CUDA_VERSION_MISMATCH",
                        Severity::Warning,
                        "CUDA version mismatch",
                        d,
                        "Align installed CUDA toolkit with driver-supported version.",
                    );
                }
                m
            },
            None => false,
        },
        _ => false,
    };
    let ghost s3 = s2 + warn_if(mismatch, "CUDA_VERSION_MISMATCH"@, "CUDA version mismatch"@);
    assert(findings(issues_view(out@)) =~= s3);
    let no_cudnn = get_str(md_ref, "cudnn_version").is_none();
    if no_cudnn {
        proof {
            reveal_strlit("CUDNN_MISSING");
            reveal_strlit("cuDNN missing");
        }
        emit(
            out,
            "CUDNN_MISSING",
            Severity::Warning,
            "cuDNN missing",
            String::from_str("No cuDNN headers found in common include paths."),
            "Install cuDNN matching the installed CUDA toolkit.",
        );
    }
    assert(findings(issues_view(out@)) =~= s3 + warn_if(no_cudnn, "CUDNN_MISSING"@, "cuDNN missing"@));
    assert(findings(issues_view(out@)) =~= base + gpu_rules(node@));
}

fn docker_drift_issue(node: &Node, out: &mut Vec<Issue>)
    ensures
        named(old(out)@) ==> named(final(out)@),
        findings(issues_view(final(out)@)) == findings(issues_view(old(out)@)) + warn_if(
            compose_drift(node@.metadata),
            "DOCKER_COMPOSE_DRIFT"@, "Docker Compose version exceeds API support"@,
        ),
{
    let ghost base = findings(issues_view(out@));
    let md_ref = &node.metadata;
    let compose = match get_str(md_ref, "compose_version") {
        Some(c) => c,
        None => {
            assert(findings(issues_view(out@)) =~= base);
            return;
        },
    };
    let required = match required_api_for_compose(compose.as_str()) {
        Some(r) => r,
        None => {
            assert(findings(issues_view(out@)) =~= base);
            return;
        },
    };
    let api = match get_str(md_ref, "docker_api_version") {
        Some(a) => parse_version_pair(a.as_str()),
        None => None,
    };
    let mut needed = concat("compose.yaml requires Docker API >= ", decimal(required.0).as_str());
    needed.append(".");
    needed.append(decimal(required.1).as_str());
    match api {
        Some(v) => {
            if !api_meets_requirement(v, required) {
                needed.append(" but detected ");
                needed.append(decimal(v.0).as_str());
                needed.append(".");
                needed.append(decimal(v.1).as_str());
                needed.append(".");
                proof {
                    reveal_strlit("DOCKER_COMPOSE_DRIFT");
                    reveal_strlit("Docker Compose version exceeds API support");
                }
                emit(
                    out,
                    "DOCKER_COMPOSE_DRIFT",
                    Severity::Warning,
                    "Docker Compose version exceeds API support",
                    needed,
                    "Upgrade Docker Engine or lower the Compose file version for compatibility.",
                );
            }
        },
        None => {
            needed.append(" but the engine API version was not detected.");
            proof {
                reveal_strlit("DOCKER_COMPOSE_DRIFT");
                reveal_strlit("Docker Compose version exceeds API support");
            }
            emit(
                out,
                "DOCKER_COMPOSE_DRIFT",
                Severity::Warning,
                "Docker Compose version exceeds API support",
                needed,
                "Ensure Docker is installed and accessible to report its API version.",
            );
        },
    }
    assert(findings(issues_view(out@)) =~= base + warn_if(
        compose_drift(node@.metadata),
        "DOCKER_COMPOSE_DRIFT"@, "Docker Compose version exceeds API support"@,
    ));
}

/// Appends what one node gives rise to.
#[verifier::rlimit(60)]
pub fn node_issues(node: &Node, out: &mut Vec<Issue>)
    ensures
        named(old(out)@) ==> named(final(out)@),
        findings(issues_view(final(out)@)) == findings(issues_view(old(out)@)) + node_rules(
            node@,
        ),
{
    let ghost base = findings(issues_view(out@));
    let id = node.id.as_str();
    let is_docker = str_eq(id, "docker");
    let c1 = is_docker && node.status != Status::Active;
    if c1 {
        proof {
            reveal_strlit("DOCKER_INACTIVE");
            reveal_strlit("Docker daemon inactive");
        }
        emit(
            out,
            "DOCKER_INACTIVE",
            Severity::Warning,
            "Docker daemon inactive",
            String::from_str("Docker was unreachable during the scan."),
            "Start the Docker service.",
        );
    }
    let ghost s1 = base + warn_if(c1, "DOCKER_INACTIVE"@, "Docker daemon inactive"@);
    assert(findings(issues_view(out@)) =~= s1);
    if is_docker {
        docker_drift_issue(node, out);
    }
    let ghost s2 = s1 + warn_if(is_docker && compose_drift(node@.metadata), "DOCKER_COMPOSE_DRIFT"@, "Docker Compose version exceeds API support"@);
    assert(findings(issues_view(out@)) =~= s2);
    let c3 = str_eq(id, "port8000") && node.status == Status::Active;
    if c3 {
        proof {
            reveal_strlit("PORT_8000_BOUND");
            reveal_strlit("Port 8000 conflict");
        }
        emit(
            out,
            "PORT_8000_BOUND",
            Severity::Critical,
            "Port 8000 conflict",
            String::from_str("Port 8000 appears to be bound."),
            "Stop the conflicting service or select another port.",
        );
    }
    let ghost s3 = s2 + when(c3, "PORT_8000_BOUND"@, "Port 8000 conflict"@, Severity::Critical);
    assert(findings(issues_view(out@)) =~= s3);
    if str_eq(id, "python") {
        python_issues(node, out);
    } else if str_eq(id, "nodejs") {
        nodejs_issues(node, out);
    } else if str_eq(id, "postgres") {
        postgres_issues(node, out);
    } else if str_eq(id, "redis") {
        redis_issues(node, out);
    } else if str_eq(id, "gpu") {
        gpu_issues(node, out);
    } else {
        assert(findings(issues_view(out@)) =~= s3 + Seq::<(Seq<char>, Severity, Seq<char>)>::empty());
    }
}

/// The issues that the state's nodes give rise to, node by node, in rule order.
pub fn evaluate(state: &crate::models::SystemState) -> (r: Vec<Issue>)
    ensures
        findings(issues_view(r@)) == all_rules(state@.nodes),
        named(r@),
{
    let mut out: Vec<Issue> = Vec::new();
    let mut i: usize = 0;
    let ghost nv = state@.nodes;
    assert(findings(issues_view(out@)) =~= all_rules(nv.take(0)));
    while i < state.nodes.len()
        invariant
            nv == state@.nodes,
            nv.len() == state.nodes.len(),
            i <= state.nodes.len(),
            findings(issues_view(out@)) == all_rules(nv.take(i as int)),
            named(out@),
        decreases state.nodes.len() - i,
    {
        node_issues(&state.nodes[i], &mut out);
        proof {
            assert(nv.take(i + 1).drop_last() =~= nv.take(i as int));
            assert(nv.take(i + 1).last() == state.nodes@[i as int]@);
        }
        i += 1;
    }
    assert(nv.take(nv.len() as int) =~= nv);
    out
}

// ---------------------------------------------------------------- simulation

pub struct SimulationResult {
    pub issues: Vec<Issue>,
    pub proposed_state: Option<crate::models::SystemState>,
    pub diff: Option<Json>,
}

/// The predictive findings for a parsed command: one port conflict per extracted 8000,
/// then a Compose workload finding.
pub open spec fn port_findings(ports: Seq<u16>) -> Seq<(Seq<char>, Severity, Seq<char>)>
    decreases ports.len(),
{
    if ports.len() == 0 {
        Seq::empty()
    } else {
        port_findings(ports.drop_last()) + warn_if(ports.last() == 8000, "SIM_PORT_8000_CONFLICT"@, "Potential port conflict"@)
    }
}

pub open spec fn predictive_findings(ports: Seq<u16>, compose: bool) -> Seq<(Seq<char>, Severity, Seq<char>)> {
    port_findings(ports) + warn_if(compose, "SIM_DOCKER_COMPOSE"@, "Docker Compose workload"@)
}

/// The risk score of issues under weights: their total, saturating at `u32::MAX`.
pub open spec fn capped_total(issues: Seq<IssueV>, w: Seq<(Seq<char>, u32)>) -> int {
    if crate::risk::total_weight(issues, w) > u32::MAX {
        u32::MAX as int
    } else {
        crate::risk::total_weight(issues, w)
    }
}

/// Severity of the risk summary: critical from a score of 70 on.
pub open spec fn summary_severity(score: int) -> Severity {
    if score >= 70 {
        Severity::Critical
    } else {
        Severity::Warning
    }
}

/// The predictive issues of a parsed command, without the risk summary.
pub fn predictive_issues(parsed: &crate::command::ParsedCommand) -> (r: Vec<Issue>)
    ensures
        findings(issues_view(r@)) == predictive_findings(parsed.ports@, parsed.docker_compose),
        named(r@),
{
    let mut out: Vec<Issue> = Vec::new();
    assert(findings(issues_view(out@)) =~= port_findings(parsed.ports@.take(0)));
    let mut i: usize = 0;
    while i < parsed.ports.len()
        invariant
            i <= parsed.ports.len(),
            findings(issues_view(out@)) == port_findings(parsed.ports@.take(i as int)),
            named(out@),
        decreases parsed.ports.len() - i,
    {
        assert(parsed.ports@.take(i + 1).drop_last() =~= parsed.ports@.take(i as int));
        if parsed.ports[i] == 8000 {
            let mut d = String::from_str("Command `");
            d.append(parsed.raw.as_str());
            d.append("` may bind port 8000.");
            proof {
                reveal_strlit("SIM_PORT_8000_CONFLICT");
                reveal_strlit("Potential port conflict");
            }
            emit(
                &mut out,
                "SIM_PORT_8000_CONFLICT",
                Severity::Warning,
                "Potential port conflict",
                d,
                "Choose another port or stop the conflicting workload.",
            );
        }
        i += 1;
        assert(findings(issues_view(out@)) =~= port_findings(parsed.ports@.take(i as int)));
    }
    assert(parsed.ports@.take(parsed.ports.len() as int) =~= parsed.ports@);
    let ghost mid = findings(issues_view(out@));
    if parsed.docker_compose {
        proof {
            reveal_strlit("SIM_DOCKER_COMPOSE");
            reveal_strlit("Docker Compose workload");
        }
        emit(
            &mut out,
            "SIM_DOCKER_COMPOSE",
            Severity::Warning,
            "Docker Compose workload",
            String::from_str("Requires Docker daemon running."),
            "Ensure Docker is active.",
        );
    }
    assert(findings(issues_view(out@)) =~= mid + warn_if(parsed.docker_compose, "SIM_DOCKER_COMPOSE"@, "Docker Compose workload"@));
    out
}

/// Simulates a command against the current state, if there is one. The issues are the
/// predictive ones followed, where there are any, by a risk summary scored with `cfg`.
/// With a current state, the proposed state is a normalized copy with the predicted
/// effects, normalized and fingerprinted again after them, and the diff goes from the
/// current state's JSON to the proposed one's;
/// without one there is neither. The current state is only read.
pub fn simulate_command(
    raw: &str,
    current: Option<&crate::models::SystemState>,
    cfg: &crate::risk_config::RiskConfig,
) -> (r: SimulationResult)
    ensures
        ({
            let base = predictive_findings(
                crate::command::command_ports(raw@),
                crate::command::command_compose(raw@),
            );
            let fs = findings(issues_view(r.issues@));
            &&& base.len() == 0 ==> fs == base
            &&& base.len() > 0 ==> fs.len() == base.len() + 1 && fs.take(base.len() as int) == base
                && fs.last().0 == "SIM_RISK_SUMMARY"@
                && fs.last().1 == summary_severity(
                capped_total(issues_view(r.issues@).take(base.len() as int), cfg@.weights),
            )
        }),
        named(r.issues@),
        current is None <==> r.proposed_state is None,
        current is None <==> r.diff is None,
        current is Some ==> ({
            let cur = current->0@;
            let cloned = crate::models::StateV {
                fingerprint: crate::state::fingerprint_of(crate::state::normalized(cur)),
                ..crate::state::normalized(cur)
            };
            let predicted = crate::models::StateV {
                nodes: crate::proposed::predicted_nodes(
                    cloned.nodes,
                    crate::command::command_ports(raw@),
                    crate::command::command_docker(raw@),
                    raw@,
                ),
                ..cloned
            };
            let prop = crate::models::StateV {
                fingerprint: crate::state::fingerprint_of(crate::state::normalized(predicted)),
                ..crate::state::normalized(predicted)
            };
            &&& r.proposed_state->0@ == prop
            &&& r.diff->0@ == crate::json_diff::diff_spec(
                crate::state::state_json(cur),
                crate::state::state_json(prop),
            )
        }),
{
    let parsed = crate::command::parse_command(raw);
    let mut issues = predictive_issues(&parsed);
    if issues.len() > 0 {
        let ghost base = findings(issues_view(issues@));
        let ghost before = issues_view(issues@);
        let score = crate::risk::summarize_risk(issues.as_slice(), cfg);
        assert(score as int == capped_total(before, cfg@.weights));
        let sev = if score >= 70 { Severity::Critical } else { Severity::Warning };
        let mut d = String::from_str("Aggregated simulation risk score: ");
        d.append(decimal(score as u64).as_str());
        d.append(".");
        proof {
            reveal_strlit("SIM_RISK_SUMMARY");
            reveal_strlit("Simulation risk summary");
        }
        emit(
            &mut issues,
            "SIM_RISK_SUMMARY",
            sev,
            "Simulation risk summary",
            d,
            "Review the predicted issues before running the command.",
        );
        assert(findings(issues_view(issues@)).take(base.len() as int) =~= base);
        assert(issues_view(issues@).take(base.len() as int) == before);
    }
    match current {
        None => SimulationResult { issues, proposed_state: None, diff: None },
        Some(cur) => {
            let mut proposed = crate::proposed::apply_predicted_changes(
                crate::proposed::clone_state(cur),
                &parsed,
            );
            proposed.refresh_fingerprint();
            let before = cur.to_json();
            let after = proposed.to_json();
            let diff = crate::json_diff::diff_states(&before, &after);
            SimulationResult { issues, proposed_state: Some(proposed), diff: Some(diff) }
        },
    }
}

} // verus!
