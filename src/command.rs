//! Shallow intent extraction from a free-text shell command.
use crate::text::{chars_of, contains, contains_seq, is_ws, is_ws_char, lower_of, push_char, to_lower};
use vstd::prelude::*;

verus! {

/// The runs that the pattern `\d{2,5}` matches in `s`, leftmost first and without overlap.
pub uninterp spec fn digit_runs_of(s: Seq<char>) -> Seq<Seq<char>>;

/// Relies on `regex::Regex::find_iter` with the pattern `\d{2,5}`: every successive
/// non-overlapping match, which depends on the text alone.
#[verifier::external_body]
fn digit_runs(s: &str) -> (r: Vec<String>)
    ensures
        r@.map_values(|x: String| x@) == digit_runs_of(s@),
{
    match regex::Regex::new(r"\d{2,5}") {
        Ok(re) => re.find_iter(s).map(|m| m.as_str().to_string()).collect(),
        Err(_) => Vec::new(),
    }
}

/// Value of the decimal digits `s`, as `str::parse::<u16>` reads it.
pub open spec fn parse_u16_spec(s: Seq<char>) -> Option<u16> {
    match crate::text::parse_u64_spec(s) {
        Some(v) => if v <= 65535 {
            Some(v as u16)
        } else {
            None
        },
        None => None,
    }
}

pub fn parse_u16(s: &str) -> (r: Option<u16>)
    ensures
        r == parse_u16_spec(s@),
{
    match crate::text::parse_u64(s) {
        Some(v) => if v <= 65535 {
            Some(v as u16)
        } else {
            None
        },
        None => None,
    }
}

/// The runs that read as a `u16`, in order.
pub open spec fn ports_of(runs: Seq<Seq<char>>) -> Seq<u16>
    decreases runs.len(),
{
    if runs.len() == 0 {
        Seq::empty()
    } else {
        let r = ports_of(runs.drop_last());
        match parse_u16_spec(runs.last()) {
            Some(p) => r.push(p),
            None => r,
        }
    }
}

#[derive(Debug, Clone)]
pub struct ParsedCommand {
    pub ports: Vec<u16>,
    pub docker_compose: bool,
    pub docker_run: bool,
    pub docker_build: bool,
    pub raw: String,
}

/// What a command yields, given its lower-cased text and the digit runs found in it.
pub open spec fn parsed_from(
    p: ParsedCommand,
    raw: Seq<char>,
    lowered: Seq<char>,
    runs: Seq<Seq<char>>,
) -> bool {
    &&& p.ports@ == ports_of(runs)
    &&& p.docker_compose == (contains_seq(lowered, "docker compose"@) || contains_seq(
        lowered,
        "docker-compose"@,
    ))
    &&& p.docker_run == contains_seq(lowered, "docker run"@)
    &&& p.docker_build == contains_seq(lowered, "docker build"@)
    &&& p.raw@ == raw
}

/// Builds the parsed command from the lower-cased text and its digit runs.
pub fn parse_lowered(raw: &str, lowered: &str, runs: &Vec<String>) -> (r: ParsedCommand)
    ensures
        parsed_from(r, raw@, lowered@, runs@.map_values(|x: String| x@)),
{
    let ghost rv = runs@.map_values(|x: String| x@);
    let mut ports: Vec<u16> = Vec::new();
    let mut i: usize = 0;
    while i < runs.len()
        invariant
            rv == runs@.map_values(|x: String| x@),
            i <= runs.len(),
            ports@ == ports_of(rv.take(i as int)),
        decreases runs.len() - i,
    {
        assert(rv.take(i + 1).drop_last() =~= rv.take(i as int));
        assert(rv.take(i + 1).last() == runs@[i as int]@);
        if let Some(p) = parse_u16(runs[i].as_str()) {
            ports.push(p);
        }
        i += 1;
    }
    assert(rv.take(runs.len() as int) =~= rv);
    let docker_compose = contains(lowered, "docker compose") || contains(lowered, "docker-compose");
    let docker_run = contains(lowered, "docker run");
    let docker_build = contains(lowered, "docker build");
    ParsedCommand { ports, docker_compose, docker_run, docker_build, raw: String::from_str(raw) }
}

/// The ports that `parse_command` extracts from `raw`.
pub open spec fn command_ports(raw: Seq<char>) -> Seq<u16> {
    ports_of(digit_runs_of(lower_of(raw)))
}

/// Whether `parse_command` sees a Compose verb in `raw`.
pub open spec fn command_compose(raw: Seq<char>) -> bool {
    contains_seq(lower_of(raw), "docker compose"@) || contains_seq(lower_of(raw), "docker-compose"@)
}

/// Whether `parse_command` sees any Docker verb in `raw`.
pub open spec fn command_docker(raw: Seq<char>) -> bool {
    command_compose(raw) || contains_seq(lower_of(raw), "docker run"@) || contains_seq(
        lower_of(raw),
        "docker build"@,
    )
}

/// Extracts candidate ports (every run of two to five digits that reads as a `u16`)
/// and the Docker verbs named in the lower-cased command.
pub fn parse_command(raw: &str) -> (r: ParsedCommand)
    ensures
        parsed_from(r, raw@, lower_of(raw@), digit_runs_of(lower_of(raw@))),
{
    let lowered = to_lower(raw);
    let runs = digit_runs(lowered.as_str());
    parse_lowered(raw, lowered.as_str(), &runs)
}

/// The white-space separated words of `s`, as `str::split_whitespace` yields them.
pub open spec fn words_of(s: Seq<char>) -> Seq<Seq<char>>
    decreases s.len(),
{
    if s.len() == 0 {
        Seq::empty()
    } else {
        let w = words_of(s.drop_last());
        let c = s.last();
        if is_ws(c) {
            w
        } else if s.len() >= 2 && !is_ws(s[s.len() - 2]) {
            w.update(w.len() - 1, w.last().push(c))
        } else {
            w.push(seq![c])
        }
    }
}

proof fn lemma_words_nonempty(s: Seq<char>)
    requires
        s.len() > 0,
        !is_ws(s.last()),
    ensures
        words_of(s).len() > 0,
    decreases s.len(),
{
    if s.len() >= 2 && !is_ws(s[s.len() - 2]) {
        assert(s.drop_last().last() == s[s.len() - 2]);
        lemma_words_nonempty(s.drop_last());
    }
}

/// The white-space separated words of `raw`.
pub fn tokenize_command(raw: &str) -> (r: Vec<String>)
    ensures
        r@.map_values(|x: String| x@) == words_of(raw@),
{
    let x = chars_of(raw);
    let mut out: Vec<String> = Vec::new();
    let mut cur = String::new();
    let mut i: usize = 0;
    while i < x.len()
        invariant
            x@ == raw@,
            i <= x@.len(),
            cur@.len() > 0 <==> (i > 0 && !is_ws(x@[i - 1])),
            (if cur@.len() > 0 {
                out@.map_values(|y: String| y@).push(cur@)
            } else {
                out@.map_values(|y: String| y@)
            }) == words_of(raw@.take(i as int)),
        decreases x@.len() - i,
    {
        let ghost t = raw@.take(i + 1);
        assert(t.drop_last() =~= raw@.take(i as int));
        assert(t.last() == x@[i as int]);
        if i > 0 {
            assert(t[t.len() - 2] == x@[i - 1]);
        }
        if is_ws_char(x[i]) {
            if cur.unicode_len() > 0 {
                out.push(cur);
                cur = String::new();
                assert(out@.map_values(|y: String| y@) =~= words_of(t));
            }
        } else {
            let ghost old_cur = cur@;
            let ghost ov = out@.map_values(|y: String| y@);
            proof {
                if i > 0 && !is_ws(x@[i - 1]) {
                    lemma_words_nonempty(raw@.take(i as int));
                }
            }
            push_char(&mut cur, x[i]);
            proof {
                if old_cur.len() > 0 {
                    assert(words_of(raw@.take(i as int)) == ov.push(old_cur));
                    assert(words_of(t) =~= ov.push(old_cur).update(ov.len() as int, old_cur.push(x@[i as int])));
                    assert(ov.push(old_cur).update(ov.len() as int, old_cur.push(x@[i as int])) =~= ov.push(cur@));
                } else {
                    assert(cur@ =~= seq![x@[i as int]]);
                }
            }
            assert(out@.map_values(|y: String| y@).push(cur@) =~= words_of(t));
        }
        i += 1;
    }
    assert(raw@.take(x.len() as int) =~= raw@);
    if cur.unicode_len() > 0 {
        out.push(cur);
        assert(out@.map_values(|y: String| y@) =~= words_of(raw@));
    }
    out
}

} // verus!
