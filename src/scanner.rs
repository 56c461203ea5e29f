//! Detection of environment components through a probe provider.
use crate::json::{entries_view, push_entry, Json, JsonV};
use crate::models::{nodes_view, Node, NodeType, NodeV, Status, SystemState};
use crate::order::isort;
use crate::text::{
    chars_of, contains, contains_seq, find, find_from, lines, lines_of, lower_of, split_char,
    split_on, starts_with, starts_with_seq, str_eq, strip_leading, strip_leading_exec, to_lower,
    trim, trim_seq,
};
use vstd::prelude::*;

verus! {

/// How facts about a machine are probed: locally, or over a remote transport. A probe
/// that fails gives `false` or `None`; it never stops a scan.
pub trait SystemProvider {
    fn file_exists(&self, path: &str) -> bool;

    fn read_file(&self, path: &str) -> Option<String>;

    /// Trimmed standard output of a successful run, or its standard error where the
    /// output is empty; `None` where the run fails or prints nothing.
    fn command_output(&self, cmd: &str, args: &[&str]) -> Option<String>;

    fn list_dir(&self, path: &str) -> Option<Vec<String>>;

    /// Modification time in seconds since the Unix epoch.
    fn modification_time(&self, path: &str) -> Option<u64>;
}

/// Environment-manager flags, read from the process environment by the caller.
#[derive(Debug, Clone, Copy)]
pub struct EnvFlags {
    pub venv: bool,
    pub pipenv: bool,
    pub poetry: bool,
    pub conda: bool,
}

/// Whether binding each well-known port locally succeeded, found by the caller.
#[derive(Debug, Clone, Copy)]
pub struct BindResults {
    pub port5432_free: bool,
    pub port6379_free: bool,
    pub port8000_free: bool,
}

/// A port is bound (the node reads active) where the listing probe reports a listener,
/// or else where a local bind attempt failed.
pub open spec fn port_status(probe: Option<Seq<char>>, bind_free: bool) -> Status {
    match probe {
        Some(out) if trim_seq(out).len() > 0 => Status::Active,
        _ => if bind_free {
            Status::Inactive
        } else {
            Status::Active
        },
    }
}

/// Whether the port reads as bound.
pub open spec fn bound_by(probe: Option<Seq<char>>, bind_free: bool) -> bool {
    port_status(probe, bind_free) == Status::Active
}

pub fn port_status_from(probe: Option<String>, bind_free: bool) -> (r: Status)
    ensures
        r == port_status(
            match probe {
                Some(s) => Some(s@),
                None => None::<Seq<char>>,
            },
            bind_free,
        ),
{
    if let Some(out) = probe {
        if trim(out.as_str()).unicode_len() > 0 {
            return Status::Active;
        }
    }
    if bind_free {
        Status::Inactive
    } else {
        Status::Active
    }
}

/// The shell command that lists a listener on `port`, with `ss` or else `netstat`.
pub open spec fn port_probe(port: u16) -> Seq<char> {
    "ss -ltn sport = :"@ + crate::encode::dec(port as u64) + " || (netstat -ltn 2>/dev/null | grep :"@
        + crate::encode::dec(port as u64) + ")"@
}

pub fn port_probe_command(port: u16) -> (r: String)
    ensures
        r@ == port_probe(port),
{
    let p = crate::oracle::decimal(port as u64);
    let mut s = String::from_str("ss -ltn sport = :");
    s.append(p.as_str());
    s.append(" || (netstat -ltn 2>/dev/null | grep :");
    s.append(p.as_str());
    s.append(")");
    s
}

/// Probes whether `port` is bound: `sh -c` with the listing command of `port_probe`
/// through the provider first, the caller's local bind attempt otherwise. Whatever the
/// listing printed, a failed bind gives `Active`.
pub fn check_port<P: SystemProvider>(provider: &P, port: u16, bind_free: bool) -> (r: Status)
    ensures
        exists|p: Option<Seq<char>>| r == port_status(p, bind_free),
        !bind_free ==> r == Status::Active,
{
    let probe = port_probe_command(port);
    let out = provider.command_output("sh", &["-c", probe.as_str()]);
    let ghost p = opt_view(out);
    let r = port_status_from(out, bind_free);
    assert(r == port_status(p, bind_free));
    r
}

/// Whether a lockfile is stale: the manifest and its lockfile both exist, both
/// modification times are known, and the manifest is the newer.
pub open spec fn stale(source_exists: bool, lock_exists: bool, source_time: Option<u64>, lock_time: Option<u64>) -> bool {
    source_exists && lock_exists && match (source_time, lock_time) {
        (Some(a), Some(b)) => a > b,
        _ => false,
    }
}

pub fn lockfile_stale(source_exists: bool, lock_exists: bool, source_time: Option<u64>, lock_time: Option<u64>) -> (r: bool)
    ensures
        r == stale(source_exists, lock_exists, source_time, lock_time),
{
    if source_exists && lock_exists {
        match (source_time, lock_time) {
            (Some(a), Some(b)) => a > b,
            _ => false,
        }
    } else {
        false
    }
}

/// The first candidate marked as found.
pub open spec fn first_found(c: Seq<(Seq<char>, bool)>) -> Option<Seq<char>>
    decreases c.len(),
{
    if c.len() == 0 {
        None
    } else if c[0].1 {
        Some(c[0].0)
    } else {
        first_found(c.drop_first())
    }
}

pub open spec fn candidates_view(c: Seq<(String, bool)>) -> Seq<(Seq<char>, bool)> {
    c.map_values(|p: (String, bool)| (p.0@, p.1))
}

/// The first of the candidates marked as found.
pub fn pick_first(candidates: &Vec<(String, bool)>) -> (r: Option<String>)
    ensures
        opt_view(r) == first_found(candidates_view(candidates@)),
{
    let ghost cv = candidates_view(candidates@);
    assert(cv.skip(0) =~= cv);
    let mut i: usize = 0;
    while i < candidates.len()
        invariant
            cv == candidates_view(candidates@),
            i <= candidates.len(),
            first_found(cv) == first_found(cv.skip(i as int)),
        decreases candidates.len() - i,
    {
        assert(cv.skip(i as int)[0] == cv[i as int]);
        assert(cv.skip(i as int).drop_first() =~= cv.skip(i + 1));
        if candidates[i].1 {
            return Some(candidates[i].0.clone());
        }
        i += 1;
    }
    None
}

/// Whether each path exists, in order.
fn existence<P: SystemProvider>(provider: &P, paths: &[&str]) -> (r: Vec<(String, bool)>)
    ensures
        r@.len() == paths@.len(),
        forall|i: int| 0 <= i < r@.len() ==> (#[trigger] r@[i]).0@ == paths@[i]@,
{
    let mut out: Vec<(String, bool)> = Vec::new();
    let mut i: usize = 0;
    while i < paths.len()
        invariant
            i <= paths@.len(),
            out@.len() == i,
            forall|k: int| 0 <= k < i ==> (#[trigger] out@[k]).0@ == paths@[k]@,
        decreases paths@.len() - i,
    {
        let found = provider.file_exists(paths[i]);
        out.push((String::from_str(paths[i]), found));
        i += 1;
    }
    out
}

// ---------------------------------------------------------------- requirement lines

/// Text before the first `#`.
pub open spec fn before_hash(line: Seq<char>) -> Seq<char> {
    split_char(line, '#')[0]
}

pub open spec fn req_seps() -> Seq<Seq<char>> {
    seq!["=="@, ">="@, "<="@, "~="@, ">"@, "<"@, "="@]
}

/// The first separator of `req_seps()` at or after `k` that occurs in `t`, as an index.
pub open spec fn first_sep(t: Seq<char>, k: int) -> int
    decreases 7 - k,
{
    if k < 0 || k >= 7 {
        -1
    } else if find_from(t, req_seps()[k], 0) >= 0 {
        k
    } else {
        first_sep(t, k + 1)
    }
}

/// The requirement a separator stands for: `=` for `==` and `=`, `^` for `~=`, the
/// separator itself otherwise.
pub open spec fn requirement_of(sep: int, ver: Seq<char>) -> Seq<char> {
    if sep == 0 || sep == 6 {
        seq!['='] + trim_seq(ver)
    } else if sep == 3 {
        seq!['^'] + trim_seq(ver)
    } else {
        req_seps()[sep] + trim_seq(ver)
    }
}

/// A `requirements.txt` line as (lower-cased name, requirement): comments dropped,
/// split at the first separator in the order `==`, `>=`, `<=`, `~=`, `>`, `<`, `=`,
/// and `*` where there is none.
pub open spec fn requirement_line(line: Seq<char>) -> Option<(Seq<char>, Seq<char>)> {
    let t = trim_seq(before_hash(line));
    if t.len() == 0 {
        None
    } else {
        let k = first_sep(t, 0);
        if k < 0 {
            Some((lower_of(t), seq!['*']))
        } else {
            let sep = req_seps()[k];
            let at = find_from(t, sep, 0);
            Some((lower_of(trim_seq(t.take(at))), requirement_of(k, t.skip(at + sep.len()))))
        }
    }
}

fn sep_str(k: usize) -> (r: &'static str)
    requires
        k < 7,
    ensures
        r@ == req_seps()[k as int],
{
    if k == 0 { "==" } else if k == 1 { ">=" } else if k == 2 { "<=" } else if k == 3 { "~=" }
    else if k == 4 { ">" } else if k == 5 { "<" } else { "=" }
}

pub fn parse_requirement_line(line: &str) -> (r: Option<(String, String)>)
    ensures
        requirement_line(line@) == (match r {
            Some(p) => Some((p.0@, p.1@)),
            None => None::<(Seq<char>, Seq<char>)>,
        }),
{
    let pieces = split_on(line, '#');
    proof {
        crate::text::lemma_split_char_nonempty(line@, '#');
        assert(pieces@[0]@ == pieces@.map_values(|x: String| x@)[0]);
    }
    let t = trim(pieces[0].as_str());
    if t.unicode_len() == 0 {
        return None;
    }
    let tc = chars_of(t.as_str());
    let mut k: usize = 0;
    while k < 7
        invariant
            tc@ == t@,
            t@ == trim_seq(before_hash(line@)),
            t@.len() > 0,
            k <= 7,
            first_sep(t@, 0) == first_sep(t@, k as int),
        decreases 7 - k,
    {
        let sep = sep_str(k);
        let sc = chars_of(sep);
        if let Some(at) = find(&tc, &sc) {
            proof {
                crate::text::lemma_find_from_range(t@, sep@, 0);
            }
            assert(at + sc.len() <= tc.len());
            let name = to_lower(trim(crate::text::string_of_range(&tc, 0, at).as_str()).as_str());
            let ver = trim(crate::text::string_of_range(&tc, at + sc.len(), tc.len()).as_str());
            assert(tc@.subrange(0, at as int) =~= t@.take(at as int));
            assert(tc@.subrange((at + sc.len()) as int, tc@.len() as int) =~= t@.skip(at + sep@.len()));
            let req = if k == 0 || k == 6 {
                crate::text::concat("=", ver.as_str())
            } else if k == 3 {
                crate::text::concat("^", ver.as_str())
            } else {
                crate::text::concat(sep, ver.as_str())
            };
            proof {
                reveal_strlit("=");
                reveal_strlit("^");
                assert("="@ =~= seq!['=']);
                assert("^"@ =~= seq!['^']);
                assert(find_from(t@, req_seps()[k as int], 0) == at as int);
                assert(first_sep(t@, k as int) == k as int);
                assert(req@ == requirement_of(k as int, t@.skip(at + sep@.len())));
                assert(t@.len() > 0);
                assert(first_sep(t@, 0) == k as int);
                assert(name@ == lower_of(trim_seq(t@.take(at as int))));
                assert(requirement_line(line@) == Some((name@, req@)));
            }
            return Some((name, req));
        }
        k += 1;
    }
    proof {
        reveal_strlit("*");
        assert("*"@ =~= seq!['*']);
    }
    Some((to_lower(t.as_str()), String::from_str("*")))
}

// ---------------------------------------------------------------- version checks

/// Whether `ver` satisfies `req` under semantic-versioning rules; `None` where either
/// does not parse.
pub uninterp spec fn semver_match_of(req: Seq<char>, ver: Seq<char>) -> Option<bool>;

/// Relies on `semver::VersionReq::parse`, `semver::Version::parse` and
/// `semver::VersionReq::matches`: whether the version meets the requirement, where both
/// parse.
#[verifier::external_body]
pub(crate) fn semver_match(req: &str, ver: &str) -> (r: Option<bool>)
    ensures
        r == semver_match_of(req@, ver@),
{
    match (semver::VersionReq::parse(req), semver::Version::parse(ver)) {
        (Ok(r), Ok(v)) => Some(r.matches(&v)),
        _ => None,
    }
}

/// `s` without every leading copy of `pat`.
pub open spec fn strip_prefix_all(s: Seq<char>, pat: Seq<char>) -> Seq<char>
    decreases s.len(),
{
    if pat.len() > 0 && starts_with_seq(s, pat) {
        strip_prefix_all(s.skip(pat.len() as int), pat)
    } else {
        s
    }
}

pub fn strip_prefix_all_exec(s: &str, pat: &str) -> (r: String)
    ensures
        r@ == strip_prefix_all(s@, pat@),
{
    let x = chars_of(s);
    let p = chars_of(pat);
    let mut i: usize = 0;
    assert(s@.skip(0) =~= s@);
    if p.len() == 0 {
        return crate::text::string_of_range(&x, 0, x.len());
    }
    while p.len() <= x.len() - i && crate::text::occurs_at_exec(&x, &p, i)
        invariant
            x@ == s@,
            p@ == pat@,
            p@.len() > 0,
            i <= x@.len(),
            strip_prefix_all(s@, pat@) == strip_prefix_all(s@.skip(i as int), pat@),
        decreases x@.len() - i,
    {
        assert(s@.skip(i as int).subrange(0, pat@.len() as int) =~= s@.subrange(i as int, i + pat@.len()));
        assert(s@.skip(i as int).skip(pat@.len() as int) =~= s@.skip(i + pat@.len()));
        i += p.len();
    }
    proof {
        if i + p@.len() <= x@.len() {
            assert(s@.skip(i as int).subrange(0, pat@.len() as int) =~= s@.subrange(i as int, i + pat@.len()));
        }
    }
    let r = crate::text::string_of_range(&x, i, x.len());
    assert(r@ =~= s@.skip(i as int));
    r
}

/// A requirement in the form semantic versioning reads: `==x` and `=x` as `=x`, `~=x`
/// as `^x`.
pub open spec fn normalized_requirement(req: Seq<char>) -> Seq<char> {
    if starts_with_seq(req, "=="@) {
        seq!['='] + strip_prefix_all(req, "=="@)
    } else if starts_with_seq(req, "="@) {
        seq!['='] + strip_leading(req, '=')
    } else if starts_with_seq(req, "~="@) {
        seq!['^'] + strip_prefix_all(req, "~="@)
    } else {
        req
    }
}

/// Whether an installed version meets a requirement: by semantic versioning where both
/// parse, else by comparing the bare texts.
pub open spec fn satisfies(req: Seq<char>, actual: Seq<char>) -> bool {
    let n = normalized_requirement(req);
    let a = strip_leading(actual, 'v');
    match semver_match_of(n, a) {
        Some(b) => b,
        None => trim_seq(strip_leading(n, '=')) == trim_seq(a),
    }
}

pub fn version_satisfies(requirement: &str, actual: &str) -> (r: bool)
    ensures
        r == satisfies(requirement@, actual@),
{
    let normalized = if starts_with(requirement, "==") {
        crate::text::concat("=", strip_prefix_all_exec(requirement, "==").as_str())
    } else if starts_with(requirement, "=") {
        crate::text::concat("=", strip_leading_exec(requirement, '=').as_str())
    } else if starts_with(requirement, "~=") {
        crate::text::concat("^", strip_prefix_all_exec(requirement, "~=").as_str())
    } else {
        String::from_str(requirement)
    };
    proof {
        reveal_strlit("=");
        reveal_strlit("^");
        assert("="@ =~= seq!['=']);
        assert("^"@ =~= seq!['^']);
    }
    let actual_clean = strip_leading_exec(actual, 'v');
    match semver_match(normalized.as_str(), actual_clean.as_str()) {
        Some(b) => b,
        None => str_eq(
            trim(strip_leading_exec(normalized.as_str(), '=').as_str()).as_str(),
            trim(actual_clean.as_str()).as_str(),
        ),
    }
}

// ---------------------------------------------------------------- compose files

/// What follows the first `:` of a line, as `splitn(2, ':').nth(1)` gives it.
pub open spec fn after_colon(l: Seq<char>) -> Option<Seq<char>> {
    let p = split_char(l, ':');
    if p.len() > 1 {
        Some(l.skip(p[0].len() as int + 1))
    } else {
        None
    }
}

/// `s` without trailing copies of `c`.
pub open spec fn strip_trailing_char(s: Seq<char>, c: char) -> Seq<char>
    decreases s.len(),
{
    if s.len() > 0 && s.last() == c {
        strip_trailing_char(s.drop_last(), c)
    } else {
        s
    }
}

/// `s` without leading and trailing copies of `c`, as `str::trim_matches(c)` leaves it.
pub open spec fn strip_ends(s: Seq<char>, c: char) -> Seq<char> {
    strip_trailing_char(strip_leading(s, c), c)
}

fn strip_ends_exec(s: &str, c: char) -> (r: String)
    ensures
        r@ == strip_ends(s@, c),
{
    let a = strip_leading_exec(s, c);
    let x = chars_of(a.as_str());
    let mut end: usize = x.len();
    assert(a@.take(end as int) =~= a@);
    while end > 0 && x[end - 1] == c
        invariant
            x@ == a@,
            end <= x@.len(),
            strip_trailing_char(a@, c) == strip_trailing_char(a@.take(end as int), c),
        decreases end,
    {
        assert(a@.take(end as int).drop_last() =~= a@.take(end - 1));
        end -= 1;
    }
    let r = crate::text::string_of_range(&x, 0, end);
    assert(r@ =~= a@.take(end as int));
    r
}

/// The Compose file version: from the first line that starts, after white space, with
/// `version` and holds a `:`, what follows the `:`, trimmed and unquoted.
pub open spec fn compose_version_spec(ls: Seq<Seq<char>>) -> Option<Seq<char>>
    decreases ls.len(),
{
    if ls.len() == 0 {
        None
    } else if starts_with_seq(trim_seq(ls[0]), "version"@) && after_colon(trim_seq(ls[0])) is Some {
        Some(strip_ends(strip_ends(trim_seq(after_colon(trim_seq(ls[0]))->0), '\''), '"'))
    } else {
        compose_version_spec(ls.drop_first())
    }
}

fn after_colon_exec(l: &str) -> (r: Option<String>)
    ensures
        after_colon(l@) == (match r {
            Some(x) => Some(x@),
            None => None::<Seq<char>>,
        }),
{
    let parts = split_on(l, ':');
    proof {
        crate::text::lemma_split_char_nonempty(l@, ':');
    }
    if parts.len() > 1 {
        let first_len = parts[0].unicode_len();
        assert(parts@[0]@ == parts@.map_values(|x: String| x@)[0]);
        let x = chars_of(l);
        proof {
            lemma_split_first_piece(l@, ':');
        }
        assert(first_len < x.len());
        let r = crate::text::string_of_range(&x, first_len + 1, x.len());
        assert(r@ =~= l@.skip(first_len as int + 1));
        Some(r)
    } else {
        None
    }
}

/// Where `c` occurs, the first piece is the text before its first occurrence.
proof fn lemma_split_first_piece(s: Seq<char>, c: char)
    ensures
        split_char(s, c).len() > 1 ==> split_char(s, c)[0].len() < s.len() && s[split_char(s, c)[0].len() as int] == c,
        split_char(s, c)[0].len() <= s.len(),
        split_char(s, c).len() == 1 ==> split_char(s, c)[0] == s,
    decreases s.len(),
{
    crate::text::lemma_split_char_nonempty(s, c);
    if s.len() > 0 {
        lemma_split_first_piece(s.drop_last(), c);
        crate::text::lemma_split_char_nonempty(s.drop_last(), c);
        let rest = split_char(s.drop_last(), c);
        if rest.len() > 1 {
            assert(s[rest[0].len() as int] == s.drop_last()[rest[0].len() as int]);
        } else if s.last() != c {
            assert(rest[0].push(s.last()) =~= s);
        }
    } else {
        assert(split_char(s, c)[0] =~= s);
    }
}

/// The Compose file version in a Compose file's text.
pub fn compose_version_of(contents: &str) -> (r: Option<String>)
    ensures
        compose_version_spec(lines_of(contents@)) == (match r {
            Some(x) => Some(x@),
            None => None::<Seq<char>>,
        }),
{
    let ls = lines(contents);
    let ghost lv = ls@.map_values(|x: String| x@);
    assert(lv.skip(0) =~= lv);
    let mut i: usize = 0;
    while i < ls.len()
        invariant
            lv == ls@.map_values(|x: String| x@),
            lv == lines_of(contents@),
            i <= ls.len(),
            compose_version_spec(lv) == compose_version_spec(lv.skip(i as int)),
        decreases ls.len() - i,
    {
        assert(lv.skip(i as int)[0] == ls@[i as int]@);
        assert(lv.skip(i as int).drop_first() =~= lv.skip(i + 1));
        let t = trim(ls[i].as_str());
        if starts_with(t.as_str(), "version") {
            if let Some(v) = after_colon_exec(t.as_str()) {
                let a = strip_ends_exec(trim(v.as_str()).as_str(), '\'');
                return Some(strip_ends_exec(a.as_str(), '"'));
            }
        }
        i += 1;
    }
    None
}

// ---------------------------------------------------------------- JSON manifests

/// The entries of a JSON object field of a JSON text, each value as a string where it
/// is one.
pub uninterp spec fn object_field_of(text: Seq<char>, field: Seq<char>) -> Option<Seq<(Seq<char>, Option<Seq<char>>)>>;

/// Relies on `serde_json::from_str` to read the text as JSON and on
/// `serde_json::Value::get` and `as_object` to find the object under `field`.
#[verifier::external_body]
fn object_field(text: &str, field: &str) -> (r: Option<Vec<(String, Option<String>)>>)
    ensures
        object_field_of(text@, field@) == (match r {
            Some(v) => Some(v@.map_values(|p: (String, Option<String>)| (p.0@, match p.1 {
                Some(s) => Some(s@),
                None => None::<Seq<char>>,
            }))),
            None => None::<Seq<(Seq<char>, Option<Seq<char>>)>>,
        }),
{
    let value: serde_json::Value = serde_json::from_str(text).ok()?;
    let object = value.get(field)?.as_object()?;
    Some(object.iter().map(|(k, v)| (k.clone(), v.as_str().map(|s| s.to_string()))).collect())
}

/// The string under `field` of a JSON text.
pub uninterp spec fn string_field_of(text: Seq<char>, field: Seq<char>) -> Option<Seq<char>>;

/// Relies on `serde_json::from_str` to read the text as JSON and on
/// `serde_json::Value::get` and `as_str` to take the string under `field`.
#[verifier::external_body]
fn string_field(text: &str, field: &str) -> (r: Option<String>)
    ensures
        string_field_of(text@, field@) == (match r {
            Some(s) => Some(s@),
            None => None::<Seq<char>>,
        }),
{
    let value: serde_json::Value = serde_json::from_str(text).ok()?;
    value.get(field)?.as_str().map(|s| s.to_string())
}

// ---------------------------------------------------------------- detectors

fn entry(out: &mut Vec<(String, Json)>, key: &str, value: Json)
    ensures
        entries_view(*final(out)) == entries_view(*old(out)).push((key@, value@)),
{
    push_entry(out, String::from_str(key), value)
}

fn node(id: &str, node_type: NodeType, label: &str, status: Status, metadata: Vec<(String, Json)>) -> (r: Node)
    ensures
        r@.id == id@,
        r@.node_type == node_type,
        r@.label == label@,
        r@.status == status,
        r@.metadata == entries_view(metadata),
{
    Node {
        id: String::from_str(id),
        node_type,
        label: String::from_str(label),
        status,
        metadata,
    }
}

/// An entry holding the string, where there is one.
pub open spec fn opt_entry(k: Seq<char>, o: Option<Seq<char>>) -> Seq<(Seq<char>, JsonV)> {
    match o {
        Some(s) => seq![(k, JsonV::Str(s))],
        None => Seq::empty(),
    }
}

/// The string, where it is not empty.
pub open spec fn nonempty(o: Option<Seq<char>>) -> Option<Seq<char>> {
    match o {
        Some(s) => if s.len() > 0 {
            Some(s)
        } else {
            None
        },
        None => None,
    }
}

pub open spec fn opt_view(o: Option<String>) -> Option<Seq<char>> {
    match o {
        Some(s) => Some(s@),
        None => None,
    }
}

pub open spec fn status_if(b: bool) -> Status {
    if b {
        Status::Active
    } else {
        Status::Inactive
    }
}

fn opt_entry_exec(md: &mut Vec<(String, Json)>, key: &str, o: &Option<String>)
    ensures
        entries_view(*final(md)) == entries_view(*old(md)) + opt_entry(key@, opt_view(*o)),
{
    let ghost before = entries_view(*md);
    if let Some(s) = o {
        entry(md, key, Json::Str(s.clone()));
    }
    assert(entries_view(*md) =~= before + opt_entry(key@, opt_view(*o)));
}

fn nonempty_exec(o: Option<String>) -> (r: Option<String>)
    ensures
        opt_view(r) == nonempty(opt_view(o)),
{
    match o {
        Some(s) => if s.unicode_len() > 0 {
            Some(s)
        } else {
            None
        },
        None => None,
    }
}

/// The Docker node for what was found: whether the daemon socket exists, whether
/// `docker info` succeeded, the Compose file and its text, and the engine API version.
/// Active where the socket exists or `docker info` succeeded.
pub open spec fn docker_node_spec(
    socket: bool,
    info: bool,
    compose_file: Option<Seq<char>>,
    compose_text: Option<Seq<char>>,
    api: Option<Seq<char>>,
) -> NodeV {
    let version = match (compose_file, compose_text) {
        (Some(_), Some(t)) => nonempty(compose_version_spec(lines_of(t))),
        _ => None,
    };
    NodeV {
        id: "docker"@,
        node_type: NodeType::Service,
        label: "Docker Daemon"@,
        status: status_if(socket || info),
        metadata: opt_entry("compose_file"@, compose_file) + opt_entry("compose_version"@, version)
            + opt_entry("docker_api_version"@, nonempty(api)) + seq![
            ("socket"@, JsonV::Str("/var/run/docker.sock"@)),
        ],
    }
}

pub fn docker_node(
    socket: bool,
    info: bool,
    compose_file: Option<String>,
    compose_text: Option<String>,
    api: Option<String>,
) -> (r: Node)
    ensures
        r@ == docker_node_spec(socket, info, opt_view(compose_file), opt_view(compose_text), opt_view(api)),
{
    let version = match (&compose_file, &compose_text) {
        (Some(_), Some(t)) => nonempty_exec(compose_version_of(t.as_str())),
        _ => None,
    };
    let api = nonempty_exec(api);
    let mut md: Vec<(String, Json)> = Vec::new();
    proof {
        crate::json::lemma_entries_view(md, 0);
    }
    opt_entry_exec(&mut md, "compose_file", &compose_file);
    opt_entry_exec(&mut md, "compose_version", &version);
    opt_entry_exec(&mut md, "docker_api_version", &api);
    let ghost before = entries_view(md);
    entry(&mut md, "socket", Json::Str(String::from_str("/var/run/docker.sock")));
    let r = node("docker", NodeType::Service, "Docker Daemon", status_if_exec(socket || info), md);
    assert(r@.metadata =~= docker_node_spec(socket, info, opt_view(compose_file), opt_view(compose_text), opt_view(api)).metadata);
    r
}

fn status_if_exec(b: bool) -> (r: Status)
    ensures
        r == status_if(b),
{
    if b {
        Status::Active
    } else {
        Status::Inactive
    }
}

/// The GPU node for what was found: `nvidia-smi` output, a PCI listing, the CUDA
/// compiler's version output and a cuDNN version. Active where `nvidia-smi` ran or the
/// listing names an AMD GPU or Intel graphics.
pub open spec fn gpu_node_spec(
    smi: Option<Seq<char>>,
    lspci: Option<Seq<char>>,
    cuda: Option<Seq<char>>,
    cudnn: Option<Seq<char>>,
) -> NodeV {
    let vendors = match lspci {
        Some(l) => gpu_vendors(lower_of(l)),
        None => (false, false),
    };
    NodeV {
        id: "gpu"@,
        node_type: NodeType::Gpu,
        label: "GPU"@,
        status: status_if(smi is Some || vendors.0 || vendors.1),
        metadata: (if lspci is Some {
            seq![("amd_gpu_detected"@, JsonV::Bool(vendors.0))]
        } else {
            Seq::empty()
        }) + opt_entry("cuda_version"@, cuda) + opt_entry("cudnn_version"@, cudnn) + (if lspci is Some {
            seq![("intel_gpu_detected"@, JsonV::Bool(vendors.1))]
        } else {
            Seq::empty()
        }) + opt_entry("nvidia_smi"@, smi),
    }
}

pub fn gpu_node(smi: Option<String>, lspci: Option<String>, cuda: Option<String>, cudnn: Option<String>) -> (r: Node)
    ensures
        r@ == gpu_node_spec(opt_view(smi), opt_view(lspci), opt_view(cuda), opt_view(cudnn)),
{
    let (amd, intel) = match &lspci {
        Some(info) => gpu_vendor_flags(info.as_str()),
        None => (false, false),
    };
    let mut md: Vec<(String, Json)> = Vec::new();
    proof {
        crate::json::lemma_entries_view(md, 0);
    }
    let ghost m0 = entries_view(md);
    if lspci.is_some() {
        entry(&mut md, "amd_gpu_detected", Json::Bool(amd));
    }
    let ghost m1 = entries_view(md);
    opt_entry_exec(&mut md, "cuda_version", &cuda);
    opt_entry_exec(&mut md, "cudnn_version", &cudnn);
    let ghost m2 = entries_view(md);
    if lspci.is_some() {
        entry(&mut md, "intel_gpu_detected", Json::Bool(intel));
    }
    let ghost m3 = entries_view(md);
    opt_entry_exec(&mut md, "nvidia_smi", &smi);
    let status = status_if_exec(smi.is_some() || amd || intel);
    let r = node("gpu", NodeType::Gpu, "GPU", status, md);
    assert(r@.metadata =~= gpu_node_spec(opt_view(smi), opt_view(lspci), opt_view(cuda), opt_view(cudnn)).metadata);
    r
}

pub open spec fn opt_json(o: Option<Seq<char>>) -> JsonV {
    match o {
        Some(s) => JsonV::Str(s),
        None => JsonV::Null,
    }
}

/// The Redis node for what was found: the port bound or not, the server's version
/// output, the configuration file and its `maxmemory` setting.
pub open spec fn redis_node_spec(
    bound: bool,
    version: Option<Seq<char>>,
    config_path: Option<Seq<char>>,
    maxmemory: Option<Seq<char>>,
) -> NodeV {
    NodeV {
        id: "redis"@,
        node_type: NodeType::Redis,
        label: "Redis"@,
        status: status_if(version is Some || bound),
        metadata: seq![
            ("config_path"@, opt_json(config_path)),
            ("maxmemory"@, opt_json(maxmemory)),
            ("port"@, JsonV::Num(6379)),
            ("port_bound"@, JsonV::Bool(bound)),
        ] + opt_entry("version"@, version),
    }
}

pub fn redis_node(bound: bool, version: Option<String>, config_path: Option<String>, maxmemory: Option<String>) -> (r: Node)
    ensures
        r@ == redis_node_spec(bound, opt_view(version), opt_view(config_path), opt_view(maxmemory)),
{
    let mut md: Vec<(String, Json)> = Vec::new();
    proof {
        crate::json::lemma_entries_view(md, 0);
    }
    let c = match &config_path {
        Some(s) => Json::Str(s.clone()),
        None => Json::Null,
    };
    let m = match &maxmemory {
        Some(s) => Json::Str(s.clone()),
        None => Json::Null,
    };
    entry(&mut md, "config_path", c);
    entry(&mut md, "maxmemory", m);
    entry(&mut md, "port", Json::Num(6379));
    entry(&mut md, "port_bound", Json::Bool(bound));
    opt_entry_exec(&mut md, "version", &version);
    let r = node("redis", NodeType::Redis, "Redis", status_if_exec(version.is_some() || bound), md);
    assert(r@.metadata =~= redis_node_spec(bound, opt_view(version), opt_view(config_path), opt_view(maxmemory)).metadata);
    r
}

/// The port-8000 node with the given status.
pub open spec fn port_node_spec(status: Status) -> NodeV {
    NodeV {
        id: "port8000"@,
        node_type: NodeType::Port,
        label: "Port 8000"@,
        status,
        metadata: seq![("port"@, JsonV::Num(8000)), ("protocol"@, JsonV::Str("tcp"@))],
    }
}

pub fn port_node(status: Status) -> (r: Node)
    ensures
        r@ == port_node_spec(status),
{
    let mut md: Vec<(String, Json)> = Vec::new();
    proof {
        crate::json::lemma_entries_view(md, 0);
    }
    entry(&mut md, "port", Json::Num(8000));
    entry(&mut md, "protocol", Json::Str(String::from_str("tcp")));
    let r = node("port8000", NodeType::Port, "Port 8000", status, md);
    assert(r@.metadata =~= port_node_spec(status).metadata);
    r
}

/// Appends the Docker node: active where the daemon socket exists or `docker info`
/// succeeds, with the socket path, the first Compose file found and its version, and
/// the engine API version.
pub fn detect_docker<P: SystemProvider>(provider: &P, nodes: &mut Vec<Node>)
    ensures
        final(nodes)@ == old(nodes)@.push(final(nodes)@.last()),
        exists|s: bool, i: bool, f: Option<Seq<char>>, t: Option<Seq<char>>, a: Option<Seq<char>>|
            final(nodes)@.last()@ == #[trigger] docker_node_spec(s, i, f, t, a),
{
    let socket = provider.file_exists("/var/run/docker.sock");
    let info = provider.command_output("docker", &["info"]).is_some();
    let compose_file = pick_first(
        &existence(provider, &["compose.yaml", "compose.yml", "docker-compose.yaml", "docker-compose.yml"]),
    );
    let compose_text = match &compose_file {
        Some(file) => provider.read_file(file.as_str()),
        None => None,
    };
    let api = provider.command_output("docker", &["version", "--format", "{{.Server.APIVersion}}"]);
    let ghost (f, t, a) = (opt_view(compose_file), opt_view(compose_text), opt_view(api));
    let n = docker_node(socket, info, compose_file, compose_text, api);
    assert(n@ == docker_node_spec(socket, info, f, t, a));
    nodes.push(n);
    assert(nodes@.last() == n);
}

/// `m` with `n` mapped to `r`: entries under `n` replaced, or a new entry appended.
pub open spec fn set_req(m: Seq<(Seq<char>, Seq<char>)>, n: Seq<char>, r: Seq<char>) -> Seq<(Seq<char>, Seq<char>)> {
    if exists|i: int| 0 <= i < m.len() && (#[trigger] m[i]).0 == n {
        m.map_values(|p: (Seq<char>, Seq<char>)| if p.0 == n { (n, r) } else { p })
    } else {
        m.push((n, r))
    }
}

/// The requirements of the lines, a later line for a name replacing an earlier one.
pub open spec fn requirements_in(ls: Seq<Seq<char>>) -> Seq<(Seq<char>, Seq<char>)>
    decreases ls.len(),
{
    if ls.len() == 0 {
        Seq::empty()
    } else {
        let m = requirements_in(ls.drop_last());
        match requirement_line(ls.last()) {
            Some((n, r)) => set_req(m, n, r),
            None => m,
        }
    }
}

pub open spec fn pairs_view(v: Seq<(String, String)>) -> Seq<(Seq<char>, Seq<char>)> {
    v.map_values(|p: (String, String)| (p.0@, p.1@))
}

fn requirements_of(contents: &str) -> (r: Vec<(String, String)>)
    ensures
        pairs_view(r@) == requirements_in(lines_of(contents@)),
{
    let ls = lines(contents);
    let ghost lv = ls@.map_values(|x: String| x@);
    let mut out: Vec<(String, String)> = Vec::new();
    let mut i: usize = 0;
    assert(pairs_view(out@) =~= requirements_in(lv.take(0)));
    while i < ls.len()
        invariant
            lv == ls@.map_values(|x: String| x@),
            lv == lines_of(contents@),
            i <= ls.len(),
            pairs_view(out@) == requirements_in(lv.take(i as int)),
        decreases ls.len() - i,
    {
        assert(lv.take(i + 1).drop_last() =~= lv.take(i as int));
        assert(lv.take(i + 1).last() == ls@[i as int]@);
        if let Some((name, req)) = parse_requirement_line(ls[i].as_str()) {
            let ghost m = pairs_view(out@);
            let mut j: usize = 0;
            let mut replaced = false;
            while j < out.len()
                invariant
                    m.len() == out@.len(),
                    j <= out@.len(),
                    replaced == exists|k: int| 0 <= k < j && (#[trigger] m[k]).0 == name@,
                    forall|k: int| 0 <= k < j ==> (#[trigger] pairs_view(out@)[k]) == (if m[k].0 == name@ { (name@, req@) } else { m[k] }),
                    forall|k: int| j <= k < out@.len() ==> (#[trigger] pairs_view(out@)[k]) == m[k],
                decreases out@.len() - j,
            {
                let ghost before = pairs_view(out@);
                assert(before[j as int] == m[j as int]);
                assert(before[j as int] == (out@[j as int].0@, out@[j as int].1@));
                if str_eq(out[j].0.as_str(), name.as_str()) {
                    out.set(j, (name.clone(), req.clone()));
                    replaced = true;
                    assert(pairs_view(out@) =~= before.update(j as int, (name@, req@)));
                }
                j += 1;
            }
            if !replaced {
                assert(pairs_view(out@) =~= m);
                out.push((name, req));
                assert(pairs_view(out@) =~= m.push((name@, req@)));
            } else {
                assert(pairs_view(out@) =~= m.map_values(
                    |p: (Seq<char>, Seq<char>)| if p.0 == name@ { (name@, req@) } else { p },
                ));
            }
        }
        i += 1;
    }
    assert(lv.take(ls.len() as int) =~= lv);
    out
}

/// Installed packages of `pip freeze` lines: each line holding `==` as (lower-cased
/// name, version), both trimmed.
pub open spec fn installed_in(ls: Seq<Seq<char>>) -> Seq<(Seq<char>, Seq<char>)>
    decreases ls.len(),
{
    if ls.len() == 0 {
        Seq::empty()
    } else {
        let m = installed_in(ls.drop_last());
        let l = ls.last();
        let at = find_from(l, "=="@, 0);
        if at >= 0 {
            m.push((lower_of(trim_seq(l.take(at))), trim_seq(l.skip(at + 2))))
        } else {
            m
        }
    }
}

fn installed_of(freeze: &str) -> (r: Vec<(String, String)>)
    ensures
        pairs_view(r@) == installed_in(lines_of(freeze@)),
{
    let ls = lines(freeze);
    let ghost lv = ls@.map_values(|x: String| x@);
    let sep = chars_of("==");
    proof {
        reveal_strlit("==");
    }
    let mut out: Vec<(String, String)> = Vec::new();
    let mut i: usize = 0;
    assert(pairs_view(out@) =~= installed_in(lv.take(0)));
    while i < ls.len()
        invariant
            lv == ls@.map_values(|x: String| x@),
            lv == lines_of(freeze@),
            i <= ls.len(),
            sep@ == "=="@,
            sep@.len() == 2,
            pairs_view(out@) == installed_in(lv.take(i as int)),
        decreases ls.len() - i,
    {
        assert(lv.take(i + 1).drop_last() =~= lv.take(i as int));
        assert(lv.take(i + 1).last() == ls@[i as int]@);
        let x = chars_of(ls[i].as_str());
        if let Some(at) = find(&x, &sep) {
            proof {
                crate::text::lemma_find_from_range(x@, sep@, 0);
            }
            let name = to_lower(trim(crate::text::string_of_range(&x, 0, at).as_str()).as_str());
            assert(at + sep.len() <= x.len());
            let ver = trim(crate::text::string_of_range(&x, at + sep.len(), x.len()).as_str());
            assert(x@.subrange(0, at as int) =~= x@.take(at as int));
            assert(x@.subrange(at + 2, x@.len() as int) =~= x@.skip(at + 2));
            out.push((name, ver));
        }
        i += 1;
        assert(pairs_view(out@) =~= installed_in(lv.take(i as int)));
    }
    assert(lv.take(ls.len() as int) =~= lv);
    out
}

/// The value of the last entry under `k`.
pub open spec fn last_value(m: Seq<(Seq<char>, Seq<char>)>, k: Seq<char>) -> Option<Seq<char>>
    decreases m.len(),
{
    if m.len() == 0 {
        None
    } else if m.last().0 == k {
        Some(m.last().1)
    } else {
        last_value(m.drop_last(), k)
    }
}

fn lookup<'a>(v: &'a Vec<(String, String)>, key: &str) -> (r: Option<&'a String>)
    ensures
        last_value(pairs_view(v@), key@) == (match r {
            Some(s) => Some(s@),
            None => None::<Seq<char>>,
        }),
{
    let ghost pv = pairs_view(v@);
    let mut i: usize = 0;
    let mut found: Option<&'a String> = None;
    assert(pv.take(0) =~= Seq::<(Seq<char>, Seq<char>)>::empty());
    while i < v.len()
        invariant
            pv == pairs_view(v@),
            i <= v.len(),
            last_value(pv.take(i as int), key@) == (match found {
                Some(s) => Some(s@),
                None => None::<Seq<char>>,
            }),
        decreases v.len() - i,
    {
        assert(pv.take(i + 1).drop_last() =~= pv.take(i as int));
        if str_eq(v[i].0.as_str(), key) {
            found = Some(&v[i].1);
        }
        i += 1;
    }
    assert(pv.take(v.len() as int) =~= pv);
    found
}

/// A drift record `{installed, name, required}`.
pub open spec fn drift_json(name: Seq<char>, required: Seq<char>, installed: JsonV) -> JsonV {
    JsonV::Obj(seq![("installed"@, installed), ("name"@, JsonV::Str(name)), ("required"@, JsonV::Str(required))])
}

/// The requirement names without an installed version, in order.
pub open spec fn missing_of(reqs: Seq<(Seq<char>, Seq<char>)>, inst: Seq<(Seq<char>, Seq<char>)>) -> Seq<JsonV>
    decreases reqs.len(),
{
    if reqs.len() == 0 {
        Seq::empty()
    } else {
        let m = missing_of(reqs.drop_last(), inst);
        if last_value(inst, reqs.last().0) is None {
            m.push(JsonV::Str(reqs.last().0))
        } else {
            m
        }
    }
}

/// The requirements whose installed version does not satisfy them, `*` excepted.
pub open spec fn drifts_of(reqs: Seq<(Seq<char>, Seq<char>)>, inst: Seq<(Seq<char>, Seq<char>)>) -> Seq<JsonV>
    decreases reqs.len(),
{
    if reqs.len() == 0 {
        Seq::empty()
    } else {
        let m = drifts_of(reqs.drop_last(), inst);
        let (n, r) = reqs.last();
        match last_value(inst, n) {
            Some(actual) => if r != seq!['*'] && !satisfies(r, actual) {
                m.push(drift_json(n, r, JsonV::Str(actual)))
            } else {
                m
            },
            None => m,
        }
    }
}

fn drift_record(name: &String, required: &String, installed: Json) -> (r: Json)
    ensures
        r@ == drift_json(name@, required@, installed@),
{
    let mut e: Vec<(String, Json)> = Vec::new();
    proof {
        crate::json::lemma_entries_view(e, 0);
    }
    let ghost iv = installed@;
    entry(&mut e, "installed", installed);
    entry(&mut e, "name", Json::Str(name.clone()));
    entry(&mut e, "required", Json::Str(required.clone()));
    assert(entries_view(e) =~= drift_json(name@, required@, iv)->Obj_0);
    Json::Obj(e)
}

fn requirement_findings(reqs: &Vec<(String, String)>, inst: &Vec<(String, String)>) -> (r: (Vec<Json>, Vec<Json>))
    ensures
        crate::json::list_view(r.0) == missing_of(pairs_view(reqs@), pairs_view(inst@)),
        crate::json::list_view(r.1) == drifts_of(pairs_view(reqs@), pairs_view(inst@)),
{
    let ghost rv = pairs_view(reqs@);
    let ghost iv = pairs_view(inst@);
    let mut missing: Vec<Json> = Vec::new();
    let mut drifts: Vec<Json> = Vec::new();
    proof {
        crate::json::lemma_list_view(missing, 0);
        crate::json::lemma_list_view(drifts, 0);
        reveal_strlit("*");
        assert("*"@ =~= seq!['*']);
    }
    let mut i: usize = 0;
    assert(rv.take(0) =~= Seq::<(Seq<char>, Seq<char>)>::empty());
    while i < reqs.len()
        invariant
            rv == pairs_view(reqs@),
            iv == pairs_view(inst@),
            "*"@ == seq!['*'],
            i <= reqs.len(),
            crate::json::list_view(missing) == missing_of(rv.take(i as int), iv),
            crate::json::list_view(drifts) == drifts_of(rv.take(i as int), iv),
        decreases reqs.len() - i,
    {
        assert(rv.take(i + 1).drop_last() =~= rv.take(i as int));
        assert(rv.take(i + 1).last() == rv[i as int]);
        let name = &reqs[i].0;
        let req = &reqs[i].1;
        match lookup(inst, name.as_str()) {
            Some(actual) => {
                if !str_eq(req.as_str(), "*") && !version_satisfies(req.as_str(), actual.as_str()) {
                    crate::json::push_item(&mut drifts, drift_record(name, req, Json::Str(actual.clone())));
                }
            },
            None => crate::json::push_item(&mut missing, Json::Str(name.clone())),
        }
        i += 1;
    }
    assert(rv.take(reqs.len() as int) =~= rv);
    (missing, drifts)
}

/// The requirements read, where the file is present.
#[verifier::opaque]
pub open spec fn python_reqs(present: bool, text: Option<Seq<char>>) -> Seq<(Seq<char>, Seq<char>)> {
    match text {
        Some(t) => if present {
            requirements_in(lines_of(t))
        } else {
            Seq::empty()
        },
        None => Seq::empty(),
    }
}

/// The packages installed according to `pip freeze`, where it ran.
#[verifier::opaque]
pub open spec fn python_inst(freeze: Option<Seq<char>>) -> Seq<(Seq<char>, Seq<char>)> {
    match freeze {
        Some(f) => installed_in(lines_of(f)),
        None => Seq::empty(),
    }
}

fn requirement_lists(present: bool, text: &Option<String>, freeze: &Option<String>) -> (r: (Vec<Json>, Vec<Json>))
    ensures
        crate::json::list_view(r.0) == missing_of(python_reqs(present, opt_view(*text)), python_inst(opt_view(*freeze))),
        crate::json::list_view(r.1) == drifts_of(python_reqs(present, opt_view(*text)), python_inst(opt_view(*freeze))),
{
    let reqs = match text {
        Some(t) => if present {
            requirements_of(t.as_str())
        } else {
            Vec::new()
        },
        None => Vec::new(),
    };
    let inst = match freeze {
        Some(f) => installed_of(f.as_str()),
        None => Vec::new(),
    };
    proof {
        reveal(python_reqs);
        reveal(python_inst);
        assert(pairs_view(Seq::<(String, String)>::empty()) =~= Seq::<(Seq<char>, Seq<char>)>::empty());
    }
    requirement_findings(&reqs, &inst)
}

/// The Python node for what was found: `python` and `python3` version output, the
/// environment managers, the requirements file (where present) and `pip freeze`
/// output, and whether a lockfile is stale.
pub open spec fn python_node_spec(
    version: Option<Seq<char>>,
    version3: Option<Seq<char>>,
    env: EnvFlags,
    requirements_present: bool,
    requirements_text: Option<Seq<char>>,
    freeze: Option<Seq<char>>,
    lockfile_drift: bool,
) -> NodeV {
    let reqs = python_reqs(requirements_present, requirements_text);
    let inst = python_inst(freeze);
    NodeV {
        id: "python"@,
        node_type: NodeType::Runtime,
        label: "Python"@,
        status: status_if(version is Some),
        metadata: seq![
            ("conda"@, JsonV::Bool(env.conda)),
            ("pipenv"@, JsonV::Bool(env.pipenv)),
            ("poetry"@, JsonV::Bool(env.poetry)),
        ] + opt_entry("python3_version"@, version3) + seq![
            ("python_lockfile_drift"@, JsonV::Bool(lockfile_drift)),
            ("python_requirements_drift"@, JsonV::Arr(drifts_of(reqs, inst))),
            ("python_requirements_missing"@, JsonV::Arr(missing_of(reqs, inst))),
            ("requirements_present"@, JsonV::Bool(requirements_present)),
            ("venv"@, JsonV::Bool(env.venv)),
        ] + opt_entry("version"@, version),
    }
}

#[verifier::rlimit(100)]
pub fn python_node(
    version: Option<String>,
    version3: Option<String>,
    env: &EnvFlags,
    requirements_present: bool,
    requirements_text: Option<String>,
    freeze: Option<String>,
    lockfile_drift: bool,
) -> (r: Node)
    ensures
        r@ == python_node_spec(
            opt_view(version),
            opt_view(version3),
            *env,
            requirements_present,
            opt_view(requirements_text),
            opt_view(freeze),
            lockfile_drift,
        ),
{
    let (missing, drifts) = requirement_lists(requirements_present, &requirements_text, &freeze);
    let ghost mv = crate::json::list_view(missing);
    let ghost dv = crate::json::list_view(drifts);
    let mut md: Vec<(String, Json)> = Vec::new();
    proof {
        crate::json::lemma_entries_view(md, 0);
    }
    entry(&mut md, "conda", Json::Bool(env.conda));
    entry(&mut md, "pipenv", Json::Bool(env.pipenv));
    entry(&mut md, "poetry", Json::Bool(env.poetry));
    opt_entry_exec(&mut md, "python3_version", &version3);
    entry(&mut md, "python_lockfile_drift", Json::Bool(lockfile_drift));
    entry(&mut md, "python_requirements_drift", Json::Arr(drifts));
    entry(&mut md, "python_requirements_missing", Json::Arr(missing));
    entry(&mut md, "requirements_present", Json::Bool(requirements_present));
    entry(&mut md, "venv", Json::Bool(env.venv));
    opt_entry_exec(&mut md, "version", &version);
    let ghost expected = seq![
        ("conda"@, JsonV::Bool(env.conda)),
        ("pipenv"@, JsonV::Bool(env.pipenv)),
        ("poetry"@, JsonV::Bool(env.poetry)),
    ] + opt_entry("python3_version"@, opt_view(version3)) + seq![
        ("python_lockfile_drift"@, JsonV::Bool(lockfile_drift)),
        ("python_requirements_drift"@, JsonV::Arr(dv)),
        ("python_requirements_missing"@, JsonV::Arr(mv)),
        ("requirements_present"@, JsonV::Bool(requirements_present)),
        ("venv"@, JsonV::Bool(env.venv)),
    ] + opt_entry("version"@, opt_view(version));
    assert(entries_view(md) =~= expected);
    node("python", NodeType::Runtime, "Python", status_if_exec(version.is_some()), md)
}

/// Whether `source` is newer than its lockfile `lock`, by `lockfile_stale`.
fn newer<P: SystemProvider>(provider: &P, source: &str, lock: &str) -> bool {
    let source_exists = provider.file_exists(source);
    let lock_exists = provider.file_exists(lock);
    let (a, b) = if source_exists && lock_exists {
        (provider.modification_time(source), provider.modification_time(lock))
    } else {
        (None, None)
    };
    lockfile_stale(source_exists, lock_exists, a, b)
}

/// Appends the Python node: active where `python --version` succeeds, with versions,
/// environment managers, missing and drifting requirements, and lockfile staleness.
pub fn detect_python<P: SystemProvider>(provider: &P, env: &EnvFlags, nodes: &mut Vec<Node>)
    ensures
        final(nodes)@ == old(nodes)@.push(final(nodes)@.last()),
        exists|v: Option<Seq<char>>, v3: Option<Seq<char>>, present: bool, text: Option<Seq<char>>,
            freeze: Option<Seq<char>>, lockfile: bool|
            final(nodes)@.last()@ == #[trigger] python_node_spec(v, v3, *env, present, text, freeze, lockfile),
{
    let version = provider.command_output("python", &["--version"]);
    let version3 = provider.command_output("python3", &["--version"]);
    let requirements_present = provider.file_exists("requirements.txt");
    let requirements_text = if requirements_present {
        provider.read_file("requirements.txt")
    } else {
        None
    };
    let mut freeze = provider.command_output("python", &["-m", "pip", "freeze"]);
    if freeze.is_none() {
        freeze = provider.command_output("python3", &["-m", "pip", "freeze"]);
    }
    if freeze.is_none() {
        freeze = provider.command_output("pip", &["freeze"]);
    }
    if freeze.is_none() {
        freeze = provider.command_output("pip3", &["freeze"]);
    }
    let lockfile_drift = newer(provider, "Pipfile", "Pipfile.lock") || newer(
        provider,
        "pyproject.toml",
        "poetry.lock",
    );
    let ghost (v, v3, t, f) = (opt_view(version), opt_view(version3), opt_view(requirements_text), opt_view(freeze));
    let n = python_node(version, version3, env, requirements_present, requirements_text, freeze, lockfile_drift);
    assert(n@ == python_node_spec(v, v3, *env, requirements_present, t, f, lockfile_drift));
    nodes.push(n);
    assert(nodes@.last() == n);
}

/// The declared dependencies whose installed version is missing or does not satisfy
/// the declaration.
pub open spec fn node_mismatches(deps: Seq<(Seq<char>, Seq<char>, Option<Seq<char>>)>) -> Seq<JsonV>
    decreases deps.len(),
{
    if deps.len() == 0 {
        Seq::empty()
    } else {
        let m = node_mismatches(deps.drop_last());
        let (n, r, inst) = deps.last();
        match inst {
            Some(v) => if !satisfies(r, v) {
                m.push(drift_json(n, r, JsonV::Str(v)))
            } else {
                m
            },
            None => m.push(drift_json(n, r, JsonV::Null)),
        }
    }
}

pub open spec fn deps_view(d: Seq<(String, String, Option<String>)>) -> Seq<(Seq<char>, Seq<char>, Option<Seq<char>>)> {
    d.map_values(|t: (String, String, Option<String>)| (t.0@, t.1@, opt_view(t.2)))
}

fn mismatches_of(deps: &Vec<(String, String, Option<String>)>) -> (r: Vec<Json>)
    ensures
        crate::json::list_view(r) == node_mismatches(deps_view(deps@)),
{
    let ghost dv = deps_view(deps@);
    let mut out: Vec<Json> = Vec::new();
    proof {
        crate::json::lemma_list_view(out, 0);
    }
    let mut i: usize = 0;
    assert(dv.take(0) =~= Seq::<(Seq<char>, Seq<char>, Option<Seq<char>>)>::empty());
    while i < deps.len()
        invariant
            dv == deps_view(deps@),
            i <= deps.len(),
            crate::json::list_view(out) == node_mismatches(dv.take(i as int)),
        decreases deps.len() - i,
    {
        assert(dv.take(i + 1).drop_last() =~= dv.take(i as int));
        assert(dv.take(i + 1).last() == dv[i as int]);
        let name = &deps[i].0;
        let req = &deps[i].1;
        match &deps[i].2 {
            Some(v) => {
                if !version_satisfies(req.as_str(), v.as_str()) {
                    crate::json::push_item(&mut out, drift_record(name, req, Json::Str(v.clone())));
                }
            },
            None => crate::json::push_item(&mut out, drift_record(name, req, Json::Null)),
        }
        i += 1;
    }
    assert(dv.take(deps.len() as int) =~= dv);
    out
}

/// The Node.js node for what was found: `node` and `npm` version output, whether
/// `package.json` and `node_modules` exist, whether the lockfile is stale, and each
/// declared dependency with the version installed for it (compared only where
/// `node_modules` exists).
pub open spec fn nodejs_node_spec(
    version: Option<Seq<char>>,
    npm: Option<Seq<char>>,
    package_json: bool,
    node_modules: bool,
    lockfile_drift: bool,
    deps: Seq<(Seq<char>, Seq<char>, Option<Seq<char>>)>,
) -> NodeV {
    NodeV {
        id: "nodejs"@,
        node_type: NodeType::Runtime,
        label: "Node.js"@,
        status: status_if(version is Some),
        metadata: seq![
            ("lockfile_drift"@, JsonV::Bool(lockfile_drift)),
            ("node_modules_mismatch"@, JsonV::Bool(package_json && !node_modules)),
            ("node_version_mismatches"@, JsonV::Arr(if node_modules { node_mismatches(deps) } else { Seq::empty() })),
        ] + opt_entry("npm"@, npm) + seq![("package_json_present"@, JsonV::Bool(package_json))]
            + opt_entry("version"@, version),
    }
}

#[verifier::rlimit(50)]
pub fn nodejs_node(
    version: Option<String>,
    npm: Option<String>,
    package_json: bool,
    node_modules: bool,
    lockfile_drift: bool,
    deps: &Vec<(String, String, Option<String>)>,
) -> (r: Node)
    ensures
        r@ == nodejs_node_spec(
            opt_view(version),
            opt_view(npm),
            package_json,
            node_modules,
            lockfile_drift,
            deps_view(deps@),
        ),
{
    let mismatches = if node_modules {
        mismatches_of(deps)
    } else {
        Vec::new()
    };
    proof {
        crate::json::lemma_list_view(mismatches, mismatches.len() as nat);
        if !node_modules {
            assert(crate::json::list_view(mismatches) =~= Seq::<JsonV>::empty());
        }
    }
    let ghost mv = crate::json::list_view(mismatches);
    let mut md: Vec<(String, Json)> = Vec::new();
    proof {
        crate::json::lemma_entries_view(md, 0);
    }
    entry(&mut md, "lockfile_drift", Json::Bool(lockfile_drift));
    entry(&mut md, "node_modules_mismatch", Json::Bool(package_json && !node_modules));
    entry(&mut md, "node_version_mismatches", Json::Arr(mismatches));
    opt_entry_exec(&mut md, "npm", &npm);
    entry(&mut md, "package_json_present", Json::Bool(package_json));
    opt_entry_exec(&mut md, "version", &version);
    let ghost expected = seq![
        ("lockfile_drift"@, JsonV::Bool(lockfile_drift)),
        ("node_modules_mismatch"@, JsonV::Bool(package_json && !node_modules)),
        ("node_version_mismatches"@, JsonV::Arr(mv)),
    ] + opt_entry("npm"@, opt_view(npm)) + seq![("package_json_present"@, JsonV::Bool(package_json))]
        + opt_entry("version"@, opt_view(version));
    assert(entries_view(md) =~= expected);
    node("nodejs", NodeType::Runtime, "Node.js", status_if_exec(version.is_some()), md)
}

/// Appends the Node.js node: active where `node --version` succeeds, with declared
/// against installed dependency versions and lockfile staleness.
pub fn detect_nodejs<P: SystemProvider>(provider: &P, nodes: &mut Vec<Node>)
    ensures
        final(nodes)@ == old(nodes)@.push(final(nodes)@.last()),
        exists|v: Option<Seq<char>>, npm: Option<Seq<char>>, pj: bool, nm: bool, lock: bool,
            m1: Option<u64>, m2: Option<u64>, deps: Seq<(Seq<char>, Seq<char>, Option<Seq<char>>)>|
            final(nodes)@.last()@ == #[trigger] nodejs_node_spec(v, npm, pj, nm, stale(pj, lock, m1, m2), deps),
{
    let node_version = provider.command_output("node", &["--version"]);
    let npm_version = provider.command_output("npm", &["--version"]);
    let package_json_present = provider.file_exists("package.json");
    let node_modules_exists = provider.file_exists("node_modules");
    let lock_exists = provider.file_exists("package-lock.json");
    let (m1, m2) = if package_json_present && lock_exists {
        (provider.modification_time("package.json"), provider.modification_time("package-lock.json"))
    } else {
        (None, None)
    };
    let lockfile_drift = lockfile_stale(package_json_present, lock_exists, m1, m2);
    let mut declared: Vec<(String, String)> = Vec::new();
    if package_json_present {
        if let Some(contents) = provider.read_file("package.json") {
            if let Some(deps) = object_field(contents.as_str(), "dependencies") {
                declared.append(&mut string_entries(&deps));
            }
            if let Some(deps) = object_field(contents.as_str(), "devDependencies") {
                declared.append(&mut string_entries(&deps));
            }
        }
    }
    let mut deps: Vec<(String, String, Option<String>)> = Vec::new();
    if node_modules_exists {
        let mut i: usize = 0;
        while i < declared.len()
            invariant
                i <= declared@.len(),
            decreases declared@.len() - i,
        {
            let path = manifest_path(declared[i].0.as_str());
            let installed = match provider.read_file(path.as_str()) {
                Some(c) => string_field(c.as_str(), "version"),
                None => None,
            };
            deps.push((declared[i].0.clone(), declared[i].1.clone(), installed));
            i += 1;
        }
    }
    let ghost (v, npm, dv) = (opt_view(node_version), opt_view(npm_version), deps_view(deps@));
    let n = nodejs_node(node_version, npm_version, package_json_present, node_modules_exists, lockfile_drift, &deps);
    assert(n@ == nodejs_node_spec(v, npm, package_json_present, node_modules_exists, stale(package_json_present, lock_exists, m1, m2), dv));
    nodes.push(n);
    assert(nodes@.last() == n);
}

/// The entries whose value is a string, in order.
pub open spec fn string_valued(items: Seq<(Seq<char>, Option<Seq<char>>)>) -> Seq<(Seq<char>, Seq<char>)>
    decreases items.len(),
{
    if items.len() == 0 {
        Seq::empty()
    } else {
        let r = string_valued(items.drop_last());
        match items.last().1 {
            Some(v) => r.push((items.last().0, v)),
            None => r,
        }
    }
}

pub fn string_entries(items: &Vec<(String, Option<String>)>) -> (r: Vec<(String, String)>)
    ensures
        pairs_view(r@) == string_valued(items@.map_values(|p: (String, Option<String>)| (p.0@, opt_view(p.1)))),
{
    let ghost iv = items@.map_values(|p: (String, Option<String>)| (p.0@, opt_view(p.1)));
    let mut out: Vec<(String, String)> = Vec::new();
    let mut i: usize = 0;
    assert(pairs_view(out@) =~= string_valued(iv.take(0)));
    while i < items.len()
        invariant
            iv == items@.map_values(|p: (String, Option<String>)| (p.0@, opt_view(p.1))),
            i <= items.len(),
            pairs_view(out@) == string_valued(iv.take(i as int)),
        decreases items.len() - i,
    {
        assert(iv.take(i + 1).drop_last() =~= iv.take(i as int));
        assert(iv.take(i + 1).last() == iv[i as int]);
        if let Some(v) = &items[i].1 {
            out.push((items[i].0.clone(), v.clone()));
        }
        i += 1;
        assert(pairs_view(out@) =~= string_valued(iv.take(i as int)));
    }
    assert(iv.take(items.len() as int) =~= iv);
    out
}

/// Where an installed Node.js package records its version.
pub fn manifest_path(name: &str) -> (r: String)
    ensures
        r@ == "node_modules/"@ + name@ + "/package.json"@,
{
    let mut path = String::from_str("node_modules/");
    path.append(name);
    path.append("/package.json");
    path
}

/// The lines that contain `pat`, in order.
pub open spec fn lines_with(ls: Seq<Seq<char>>, pat: Seq<char>) -> Seq<Seq<char>>
    decreases ls.len(),
{
    if ls.len() == 0 {
        Seq::empty()
    } else if contains_seq(ls.last(), pat) {
        lines_with(ls.drop_last(), pat).push(ls.last())
    } else {
        lines_with(ls.drop_last(), pat)
    }
}

pub open spec fn str_items(v: Seq<Seq<char>>) -> Seq<JsonV> {
    v.map_values(|s: Seq<char>| JsonV::Str(s))
}

fn str_items_exec(v: &Vec<String>) -> (r: Vec<Json>)
    ensures
        crate::json::list_view(r) == str_items(v@.map_values(|s: String| s@)),
{
    let ghost target = str_items(v@.map_values(|s: String| s@));
    let mut out: Vec<Json> = Vec::new();
    proof {
        crate::json::lemma_list_view(out, 0);
    }
    let mut i: usize = 0;
    while i < v.len()
        invariant
            target == str_items(v@.map_values(|s: String| s@)),
            i <= v.len(),
            crate::json::list_view(out) == target.take(i as int),
        decreases v.len() - i,
    {
        crate::json::push_item(&mut out, Json::Str(v[i].clone()));
        i += 1;
        assert(crate::json::list_view(out) =~= target.take(i as int));
    }
    assert(target.take(v.len() as int) =~= target);
    out
}

fn lines_with_exec(text: &str, pat: &str) -> (r: Vec<String>)
    ensures
        r@.map_values(|s: String| s@) == lines_with(lines_of(text@), pat@),
{
    let ls = lines(text);
    let ghost lv = ls@.map_values(|x: String| x@);
    let mut out: Vec<String> = Vec::new();
    let mut i: usize = 0;
    assert(out@.map_values(|s: String| s@) =~= lines_with(lv.take(0), pat@));
    while i < ls.len()
        invariant
            lv == ls@.map_values(|x: String| x@),
            lv == lines_of(text@),
            i <= ls.len(),
            out@.map_values(|s: String| s@) == lines_with(lv.take(i as int), pat@),
        decreases ls.len() - i,
    {
        assert(lv.take(i + 1).drop_last() =~= lv.take(i as int));
        assert(lv.take(i + 1).last() == ls@[i as int]@);
        if contains(ls[i].as_str(), pat) {
            out.push(ls[i].clone());
        }
        i += 1;
        assert(out@.map_values(|s: String| s@) =~= lines_with(lv.take(i as int), pat@));
    }
    assert(lv.take(ls.len() as int) =~= lv);
    out
}

/// The PostgreSQL node for what was found: the port bound or not, the client's version
/// output, the process listing and the installed version directories.
pub open spec fn postgres_node_spec(
    bound: bool,
    version: Option<Seq<char>>,
    ps: Option<Seq<char>>,
    dirs: Option<Seq<Seq<char>>>,
) -> NodeV {
    let processes = match ps {
        Some(out) => lines_with(lines_of(out), "postgres"@),
        None => Seq::empty(),
    };
    let versions = match dirs {
        Some(d) => d,
        None => Seq::empty(),
    };
    NodeV {
        id: "postgres"@,
        node_type: NodeType::Postgres,
        label: "PostgreSQL"@,
        status: status_if(version is Some || bound),
        metadata: seq![
            ("installed_versions"@, JsonV::Arr(str_items(versions))),
            ("port"@, JsonV::Num(5432)),
            ("port_bound"@, JsonV::Bool(bound)),
            ("processes"@, JsonV::Arr(str_items(processes))),
        ] + opt_entry("version"@, version),
    }
}

pub fn postgres_node(bound: bool, version: Option<String>, ps: Option<String>, dirs: Option<Vec<String>>) -> (r: Node)
    ensures
        r@ == postgres_node_spec(
            bound,
            opt_view(version),
            opt_view(ps),
            match dirs {
                Some(d) => Some(d@.map_values(|s: String| s@)),
                None => None,
            },
        ),
{
    let processes = match &ps {
        Some(out) => lines_with_exec(out.as_str(), "postgres"),
        None => Vec::new(),
    };
    let versions = match &dirs {
        Some(d) => str_items_exec(d),
        None => str_items_exec(&Vec::new()),
    };
    let procs = str_items_exec(&processes);
    let mut md: Vec<(String, Json)> = Vec::new();
    proof {
        crate::json::lemma_entries_view(md, 0);
    }
    entry(&mut md, "installed_versions", Json::Arr(versions));
    entry(&mut md, "port", Json::Num(5432));
    entry(&mut md, "port_bound", Json::Bool(bound));
    entry(&mut md, "processes", Json::Arr(procs));
    opt_entry_exec(&mut md, "version", &version);
    let r = node("postgres", NodeType::Postgres, "PostgreSQL", status_if_exec(version.is_some() || bound), md);
    proof {
        let d = match dirs {
            Some(d) => Some(d@.map_values(|s: String| s@)),
            None => None,
        };
        let p = postgres_node_spec(bound, opt_view(version), opt_view(ps), d);
        assert(Seq::<String>::empty().map_values(|s: String| s@) =~= Seq::<Seq<char>>::empty());
        assert(r@.metadata =~= p.metadata);
    }
    r
}

/// Appends the PostgreSQL node: active where `psql --version` succeeds or port 5432 is
/// bound, with processes and installed version directories.
pub fn detect_postgres<P: SystemProvider>(provider: &P, bind_free: bool, nodes: &mut Vec<Node>)
    ensures
        final(nodes)@ == old(nodes)@.push(final(nodes)@.last()),
        exists|p: Option<Seq<char>>, v: Option<Seq<char>>, ps: Option<Seq<char>>, d: Option<Seq<Seq<char>>>|
            final(nodes)@.last()@ == #[trigger] postgres_node_spec(
                bound_by(p, bind_free),
                v,
                ps,
                d,
            ),
{
    let status = check_port(provider, 5432, bind_free);
    let ghost p = choose|p: Option<Seq<char>>| status == port_status(p, bind_free);
    let bound = status == Status::Active;
    let version = provider.command_output("psql", &["--version"]);
    let ps = provider.command_output("ps", &["aux"]);
    let dirs = provider.list_dir("/usr/lib/postgresql");
    let ghost (v, pv, d) = (
        opt_view(version),
        opt_view(ps),
        match &dirs {
            Some(x) => Some(x@.map_values(|s: String| s@)),
            None => None,
        },
    );
    let n = postgres_node(bound, version, ps, dirs);
    assert(n@ == postgres_node_spec(bound_by(p, bind_free), v, pv, d));
    nodes.push(n);
    assert(nodes@.last() == n);
}

/// `s` without its leading white space.
pub fn strip_leading_ws(s: &str) -> (r: String)
    ensures
        r@ == s@.skip(crate::text::first_non_ws(s@, 0)),
{
    let x = chars_of(s);
    let mut a: usize = 0;
    while a < x.len() && crate::text::is_ws_char(x[a])
        invariant
            x@ == s@,
            a <= x@.len(),
            crate::text::first_non_ws(s@, a as int) == crate::text::first_non_ws(s@, 0),
        decreases x@.len() - a,
    {
        a += 1;
    }
    let r = crate::text::string_of_range(&x, a, x.len());
    assert(r@ =~= s@.skip(a as int));
    r
}

/// The `maxmemory` setting in the lines of a Redis configuration: on the first line
/// that starts, after white space, with `maxmemory`, its second word, if any.
pub open spec fn maxmemory_in(ls: Seq<Seq<char>>) -> Option<Seq<char>>
    decreases ls.len(),
{
    if ls.len() == 0 {
        None
    } else if starts_with_seq(ls[0].skip(crate::text::first_non_ws(ls[0], 0)), "maxmemory"@) {
        let w = crate::command::words_of(ls[0]);
        if w.len() > 1 {
            Some(w[1])
        } else {
            None
        }
    } else {
        maxmemory_in(ls.drop_first())
    }
}

pub fn maxmemory_of(conf: &str) -> (r: Option<String>)
    ensures
        maxmemory_in(lines_of(conf@)) == (match r {
            Some(x) => Some(x@),
            None => None::<Seq<char>>,
        }),
{
    let ls = lines(conf);
    let ghost lv = ls@.map_values(|x: String| x@);
    assert(lv.skip(0) =~= lv);
    let mut i: usize = 0;
    while i < ls.len()
        invariant
            lv == ls@.map_values(|x: String| x@),
            lv == lines_of(conf@),
            i <= ls.len(),
            maxmemory_in(lv) == maxmemory_in(lv.skip(i as int)),
        decreases ls.len() - i,
    {
        assert(lv.skip(i as int)[0] == ls@[i as int]@);
        assert(lv.skip(i as int).drop_first() =~= lv.skip(i + 1));
        let rest = strip_leading_ws(ls[i].as_str());
        if starts_with(rest.as_str(), "maxmemory") {
            let words = crate::command::tokenize_command(ls[i].as_str());
            if words.len() > 1 {
                assert(words@.map_values(|x: String| x@)[1] == words@[1]@);
                return Some(words[1].clone());
            }
            return None;
        }
        i += 1;
    }
    None
}

/// The `maxmemory` setting of the configuration file found, if it could be read.
pub open spec fn memory_setting(path: Option<Seq<char>>, conf: Option<Seq<char>>) -> Option<Seq<char>> {
    match (path, conf) {
        (Some(_), Some(text)) => maxmemory_in(lines_of(text)),
        _ => None,
    }
}

/// Appends the Redis node: active where `redis-server --version` succeeds or port 6379
/// is bound, with the configuration file and its memory limit.
pub fn detect_redis<P: SystemProvider>(provider: &P, bind_free: bool, nodes: &mut Vec<Node>)
    ensures
        final(nodes)@ == old(nodes)@.push(final(nodes)@.last()),
        exists|p: Option<Seq<char>>, v: Option<Seq<char>>, c: Seq<(Seq<char>, bool)>, conf: Option<Seq<char>>|
            final(nodes)@.last()@ == #[trigger] redis_node_spec(
                bound_by(p, bind_free),
                v,
                first_found(c),
                memory_setting(first_found(c), conf),
            ),
{
    let status = check_port(provider, 6379, bind_free);
    let ghost p = choose|p: Option<Seq<char>>| status == port_status(p, bind_free);
    let bound = status == Status::Active;
    let version = provider.command_output("redis-server", &["--version"]);
    let found = existence(provider, &["/etc/redis/redis.conf", "/usr/local/etc/redis/redis.conf"]);
    let config_path = pick_first(&found);
    let conf = match &config_path {
        Some(path) => provider.read_file(path.as_str()),
        None => None,
    };
    let memory = match (&config_path, &conf) {
        (Some(_), Some(content)) => maxmemory_of(content.as_str()),
        _ => None,
    };
    let ghost (v, c, cv, m) = (opt_view(version), candidates_view(found@), opt_view(conf), opt_view(memory));
    let n = redis_node(bound, version, config_path, memory);
    assert(m == memory_setting(first_found(c), cv));
    assert(n@ == redis_node_spec(bound_by(p, bind_free), v, first_found(c), memory_setting(first_found(c), cv)));
    nodes.push(n);
    assert(nodes@.last() == n);
}

/// The last word of the first line that contains `pat`; none where no line does or
/// that line has no words.
pub open spec fn last_word_in(ls: Seq<Seq<char>>, pat: Seq<char>) -> Option<Seq<char>>
    decreases ls.len(),
{
    if ls.len() == 0 {
        None
    } else if contains_seq(ls[0], pat) {
        let w = crate::command::words_of(ls[0]);
        if w.len() > 0 {
            Some(w.last())
        } else {
            None
        }
    } else {
        last_word_in(ls.drop_first(), pat)
    }
}

fn last_word_of_line(text: &str, pat: &str) -> (r: Option<String>)
    ensures
        last_word_in(lines_of(text@), pat@) == (match r {
            Some(x) => Some(x@),
            None => None::<Seq<char>>,
        }),
{
    let ls = lines(text);
    let ghost lv = ls@.map_values(|x: String| x@);
    assert(lv.skip(0) =~= lv);
    let mut i: usize = 0;
    while i < ls.len()
        invariant
            lv == ls@.map_values(|x: String| x@),
            lv == lines_of(text@),
            i <= ls.len(),
            last_word_in(lv, pat@) == last_word_in(lv.skip(i as int), pat@),
        decreases ls.len() - i,
    {
        assert(lv.skip(i as int)[0] == ls@[i as int]@);
        assert(lv.skip(i as int).drop_first() =~= lv.skip(i + 1));
        if contains(ls[i].as_str(), pat) {
            let words = crate::command::tokenize_command(ls[i].as_str());
            if words.len() > 0 {
                assert(words@.map_values(|x: String| x@).last() == words@[words.len() - 1]@);
                return Some(words[words.len() - 1].clone());
            }
            return None;
        }
        i += 1;
    }
    None
}

/// The cuDNN version of a `cudnn_version.h` header: `major.minor.patch` from the
/// `CUDNN_MAJOR`, `CUDNN_MINOR` and `CUDNN_PATCHLEVEL` lines, a missing minor or patch
/// read as `0`; none without a major.
pub open spec fn cudnn_version_spec(ls: Seq<Seq<char>>) -> Option<Seq<char>> {
    let or_zero = |o: Option<Seq<char>>| match o {
        Some(x) => x,
        None => seq!['0'],
    };
    match last_word_in(ls, "CUDNN_MAJOR"@) {
        Some(major) => Some(
            major + seq!['.'] + or_zero(last_word_in(ls, "CUDNN_MINOR"@)) + seq!['.'] + or_zero(
                last_word_in(ls, "CUDNN_PATCHLEVEL"@),
            ),
        ),
        None => None,
    }
}

pub fn cudnn_version_of(header: &str) -> (r: Option<String>)
    ensures
        cudnn_version_spec(lines_of(header@)) == (match r {
            Some(x) => Some(x@),
            None => None::<Seq<char>>,
        }),
{
    proof {
        reveal_strlit("0");
        reveal_strlit(".");
    }
    let major = match last_word_of_line(header, "CUDNN_MAJOR") {
        Some(m) => m,
        None => return None,
    };
    let minor = match last_word_of_line(header, "CUDNN_MINOR") {
        Some(m) => m,
        None => String::from_str("0"),
    };
    let patch = match last_word_of_line(header, "CUDNN_PATCHLEVEL") {
        Some(p) => p,
        None => String::from_str("0"),
    };
    let mut s = major;
    s.append(".");
    s.append(minor.as_str());
    s.append(".");
    s.append(patch.as_str());
    assert("0"@ =~= seq!['0']);
    assert("."@ =~= seq!['.']);
    Some(s)
}

/// The cuDNN version from the first header that yields one: the system header, else
/// the CUDA toolkit's.
pub open spec fn cudnn_choice(first: Option<Seq<char>>, second: Option<Seq<char>>) -> Option<Seq<char>> {
    let a = match first {
        Some(t) => cudnn_version_spec(lines_of(t)),
        None => None,
    };
    if a is Some {
        a
    } else {
        match second {
            Some(t) => cudnn_version_spec(lines_of(t)),
            None => None,
        }
    }
}

pub fn cudnn_from(first: Option<String>, second: Option<String>) -> (r: Option<String>)
    ensures
        opt_view(r) == cudnn_choice(opt_view(first), opt_view(second)),
{
    let a = match &first {
        Some(t) => cudnn_version_of(t.as_str()),
        None => None,
    };
    if a.is_some() {
        return a;
    }
    match &second {
        Some(t) => cudnn_version_of(t.as_str()),
        None => None,
    }
}

/// GPU vendors named in a PCI listing: AMD where it says `amd`, Intel graphics where it
/// says both `intel` and `graphics`, in any case.
pub open spec fn gpu_vendors(lowered: Seq<char>) -> (bool, bool) {
    (
        contains_seq(lowered, "amd"@),
        contains_seq(lowered, "intel"@) && contains_seq(lowered, "graphics"@),
    )
}

pub fn gpu_vendor_flags(lspci: &str) -> (r: (bool, bool))
    ensures
        r == gpu_vendors(lower_of(lspci@)),
{
    let lower = to_lower(lspci);
    (
        contains(lower.as_str(), "amd"),
        contains(lower.as_str(), "intel") && contains(lower.as_str(), "graphics"),
    )
}

/// Appends the GPU node: active where `nvidia-smi` succeeds or the PCI listing names an
/// AMD GPU or Intel graphics, with CUDA and cuDNN versions where found.
pub fn detect_gpu<P: SystemProvider>(provider: &P, nodes: &mut Vec<Node>)
    ensures
        final(nodes)@ == old(nodes)@.push(final(nodes)@.last()),
        exists|smi: Option<Seq<char>>, l: Option<Seq<char>>, c: Option<Seq<char>>, h1: Option<Seq<char>>, h2: Option<Seq<char>>|
            final(nodes)@.last()@ == #[trigger] gpu_node_spec(smi, l, c, cudnn_choice(h1, h2)),
{
    let smi = provider.command_output("nvidia-smi", &[]);
    let lspci = provider.command_output("lspci", &[]);
    let cuda = provider.command_output("nvcc", &["--version"]);
    let h1 = provider.read_file("/usr/include/cudnn_version.h");
    let h2 = provider.read_file("/usr/local/cuda/include/cudnn_version.h");
    let ghost (sv, lv, cv, v1, v2) = (opt_view(smi), opt_view(lspci), opt_view(cuda), opt_view(h1), opt_view(h2));
    let cudnn = cudnn_from(h1, h2);
    let n = gpu_node(smi, lspci, cuda, cudnn);
    assert(n@ == gpu_node_spec(sv, lv, cv, cudnn_choice(v1, v2)));
    nodes.push(n);
    assert(nodes@.last() == n);
}

/// Appends the port-8000 node: active (bound) or inactive (free).
pub fn detect_port_8000<P: SystemProvider>(provider: &P, bind_free: bool, nodes: &mut Vec<Node>)
    ensures
        final(nodes)@ == old(nodes)@.push(final(nodes)@.last()),
        exists|p: Option<Seq<char>>| final(nodes)@.last()@ == #[trigger] port_node_spec(port_status(p, bind_free)),
        !bind_free ==> final(nodes)@.last()@.status == Status::Active,
{
    let status = check_port(provider, 8000, bind_free);
    let ghost p = choose|p: Option<Seq<char>>| status == port_status(p, bind_free);
    let n = port_node(status);
    assert(n@ == port_node_spec(port_status(p, bind_free)));
    nodes.push(n);
    assert(nodes@.last() == n);
}

/// The node for the operating system: active, labelled with the platform.
pub open spec fn os_node_spec(label: Seq<char>) -> NodeV {
    NodeV { id: "os"@, node_type: NodeType::Os, label, status: Status::Active, metadata: Seq::empty() }
}

pub open spec fn is_docker_node(n: NodeV) -> bool {
    exists|s: bool, i: bool, f: Option<Seq<char>>, t: Option<Seq<char>>, a: Option<Seq<char>>|
        n == #[trigger] docker_node_spec(s, i, f, t, a)
}

pub open spec fn is_python_node(n: NodeV, env: EnvFlags) -> bool {
    exists|v: Option<Seq<char>>, v3: Option<Seq<char>>, present: bool, text: Option<Seq<char>>,
        freeze: Option<Seq<char>>, lockfile: bool|
        n == #[trigger] python_node_spec(v, v3, env, present, text, freeze, lockfile)
}

pub open spec fn is_nodejs_node(n: NodeV) -> bool {
    exists|v: Option<Seq<char>>, npm: Option<Seq<char>>, pj: bool, nm: bool, lock: bool,
        m1: Option<u64>, m2: Option<u64>, deps: Seq<(Seq<char>, Seq<char>, Option<Seq<char>>)>|
        n == #[trigger] nodejs_node_spec(v, npm, pj, nm, stale(pj, lock, m1, m2), deps)
}

pub open spec fn is_postgres_node(n: NodeV, bind_free: bool) -> bool {
    exists|p: Option<Seq<char>>, v: Option<Seq<char>>, ps: Option<Seq<char>>, d: Option<Seq<Seq<char>>>|
        n == #[trigger] postgres_node_spec(bound_by(p, bind_free), v, ps, d)
}

pub open spec fn is_redis_node(n: NodeV, bind_free: bool) -> bool {
    exists|p: Option<Seq<char>>, v: Option<Seq<char>>, c: Seq<(Seq<char>, bool)>, conf: Option<Seq<char>>|
        n == #[trigger] redis_node_spec(bound_by(p, bind_free), v, first_found(c), memory_setting(first_found(c), conf))
}

pub open spec fn is_gpu_node(n: NodeV) -> bool {
    exists|smi: Option<Seq<char>>, l: Option<Seq<char>>, c: Option<Seq<char>>, h1: Option<Seq<char>>, h2: Option<Seq<char>>|
        n == #[trigger] gpu_node_spec(smi, l, c, cudnn_choice(h1, h2))
}

pub open spec fn is_port_node(n: NodeV, bind_free: bool) -> bool {
    exists|p: Option<Seq<char>>| n == #[trigger] port_node_spec(port_status(p, bind_free))
}

/// One node of each kind a scan produces, in detection order.
pub open spec fn scan_nodes(b: Seq<NodeV>, os_label: Seq<char>, env: EnvFlags, binds: BindResults) -> bool {
    &&& b.len() == 8
    &&& b[0] == os_node_spec(os_label)
    &&& is_docker_node(b[1])
    &&& is_python_node(b[2], env)
    &&& is_nodejs_node(b[3])
    &&& is_postgres_node(b[4], binds.port5432_free)
    &&& is_redis_node(b[5], binds.port6379_free)
    &&& is_gpu_node(b[6])
    &&& is_port_node(b[7], binds.port8000_free)
}

/// One scan: the OS node, then one node per detector, put in canonical order with
/// their fingerprint; no edges or issues yet.
pub fn perform_scan_with_provider<P: SystemProvider>(
    provider: &P,
    env: &EnvFlags,
    binds: &BindResults,
    timestamp: String,
    os_label: &str,
) -> (r: SystemState)
    ensures
        exists|b: Seq<NodeV>| scan_nodes(b, os_label@, *env, *binds) && #[trigger] crate::state::built(
            b,
            Seq::empty(),
            Seq::empty(),
            timestamp@,
        ) == r@,
        r@.nodes.len() == 8,
        r@.edges.len() == 0,
        r@.issues.len() == 0,
        r@.version == crate::models::CONTRACT_VERSION@,
        r@.timestamp == timestamp@,
        r@.fingerprint.len() == 64,
        exists|i: int| 0 <= i < 8 && r@.nodes[i] == os_node_spec(os_label@),
        exists|i: int| 0 <= i < 8 && is_docker_node(#[trigger] r@.nodes[i]),
        exists|i: int| 0 <= i < 8 && is_python_node(#[trigger] r@.nodes[i], *env),
        exists|i: int| 0 <= i < 8 && is_nodejs_node(#[trigger] r@.nodes[i]),
        exists|i: int| 0 <= i < 8 && is_postgres_node(#[trigger] r@.nodes[i], binds.port5432_free),
        exists|i: int| 0 <= i < 8 && is_redis_node(#[trigger] r@.nodes[i], binds.port6379_free),
        exists|i: int| 0 <= i < 8 && is_gpu_node(#[trigger] r@.nodes[i]),
        exists|i: int| 0 <= i < 8 && is_port_node(#[trigger] r@.nodes[i], binds.port8000_free),
{
    let mut nodes: Vec<Node> = Vec::new();
    let md: Vec<(String, Json)> = Vec::new();
    proof {
        crate::json::lemma_entries_view(md, 0);
    }
    let os = node("os", NodeType::Os, os_label, Status::Active, md);
    assert(os@.metadata =~= Seq::<(Seq<char>, JsonV)>::empty());
    nodes.push(os);
    detect_docker(provider, &mut nodes);
    detect_python(provider, env, &mut nodes);
    detect_nodejs(provider, &mut nodes);
    detect_postgres(provider, binds.port5432_free, &mut nodes);
    detect_redis(provider, binds.port6379_free, &mut nodes);
    detect_gpu(provider, &mut nodes);
    detect_port_8000(provider, binds.port8000_free, &mut nodes);
    let ghost b = nodes_view(nodes@);
    proof {
        assert(b[0] == os_node_spec(os_label@));
        assert(scan_nodes(b, os_label@, *env, *binds));
        crate::state::lemma_node_order();
        crate::state::lemma_edge_order();
        crate::state::lemma_issue_order();
        crate::order::lemma_isort(b, crate::state::node_order());
        crate::order::lemma_isort(crate::models::edges_view(Seq::empty()), crate::state::edge_order());
        crate::order::lemma_isort(crate::models::issues_view(Seq::empty()), crate::state::issue_order());
    }
    let r = SystemState::new(nodes, Vec::new(), Vec::new(), timestamp);
    proof {
        assert(crate::models::edges_view(Seq::<crate::models::Edge>::empty()) =~= Seq::empty());
        assert(crate::models::issues_view(Seq::<crate::models::Issue>::empty()) =~= Seq::empty());
        let s = r@.nodes;
        assert(s == isort(b, crate::state::node_order()));
        b.to_multiset_ensures();
        s.to_multiset_ensures();
        assert forall|k: int| 0 <= k < 8 implies exists|i: int| 0 <= i < 8 && s[i] == #[trigger] b[k] by {
            assert(b.contains(b[k]));
            assert(b.to_multiset().count(b[k]) > 0);
            assert(s.to_multiset().count(b[k]) > 0);
            assert(s.contains(b[k]));
        }
        let i0 = choose|i: int| 0 <= i < 8 && s[i] == b[0];
        let i1 = choose|i: int| 0 <= i < 8 && s[i] == b[1];
        let i2 = choose|i: int| 0 <= i < 8 && s[i] == b[2];
        let i3 = choose|i: int| 0 <= i < 8 && s[i] == b[3];
        let i4 = choose|i: int| 0 <= i < 8 && s[i] == b[4];
        let i5 = choose|i: int| 0 <= i < 8 && s[i] == b[5];
        let i6 = choose|i: int| 0 <= i < 8 && s[i] == b[6];
        let i7 = choose|i: int| 0 <= i < 8 && s[i] == b[7];
        assert(is_docker_node(s[i1]));
        assert(is_python_node(s[i2], *env));
        assert(is_nodejs_node(s[i3]));
        assert(is_postgres_node(s[i4], binds.port5432_free));
        assert(is_redis_node(s[i5], binds.port6379_free));
        assert(is_gpu_node(s[i6]));
        assert(is_port_node(s[i7], binds.port8000_free));
    }
    r
}

} // verus!
