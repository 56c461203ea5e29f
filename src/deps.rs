//! The graph of `use crate::...` imports between a crate's modules.
use crate::text::{chars_of, str_eq, string_of_range};
use vstd::prelude::*;

verus! {

pub open spec fn is_word_char(c: char) -> bool {
    ('a' <= c && c <= 'z') || ('A' <= c && c <= 'Z') || ('0' <= c && c <= '9') || c == '_'
}

pub open spec fn run_ok(c: char, word: bool) -> bool {
    if word {
        is_word_char(c)
    } else {
        c == 's'
    }
}

/// Number of characters of `s` from `i` on that are `s` (or, with `word`, ASCII letters,
/// digits and `_`), before the first that is not.
pub open spec fn run_len(s: Seq<char>, i: int, word: bool) -> int
    decreases s.len() - i,
{
    if i < 0 || i >= s.len() || !run_ok(s[i], word) {
        0
    } else {
        1 + run_len(s, i + 1, word)
    }
}

/// The module a line imports from, as the pattern `^use\\s+crate::([a-zA-Z0-9_]+)`
/// captures it: after `use\`, one or more `s`, then `crate::`, the longest run of
/// ASCII letters, digits and `_`, which must not be empty.
pub open spec fn crate_import_of(line: Seq<char>) -> Option<Seq<char>> {
    let k = run_len(line, 4, false);
    let start = 4 + k + 7;
    let w = run_len(line, start, true);
    if line.len() >= 4 && line.take(4) == seq!['u', 's', 'e', '\\'] && k >= 1 && line.len() >= start
        && line.subrange(4 + k, start) == seq!['c', 'r', 'a', 't', 'e', ':', ':'] && w >= 1 {
        Some(line.subrange(start, start + w))
    } else {
        None
    }
}

proof fn lemma_run_len(s: Seq<char>, i: int, word: bool)
    requires
        0 <= i <= s.len(),
    ensures
        0 <= run_len(s, i, word) <= s.len() - i,
    decreases s.len() - i,
{
    if i < s.len() && run_ok(s[i], word) {
        lemma_run_len(s, i + 1, word);
    }
}

fn char_ok(c: char, word: bool) -> (r: bool)
    ensures
        r == run_ok(c, word),
{
    if word {
        ('a' <= c && c <= 'z') || ('A' <= c && c <= 'Z') || ('0' <= c && c <= '9') || c == '_'
    } else {
        c == 's'
    }
}

fn run_end(x: &Vec<char>, i: usize, word: bool) -> (r: usize)
    requires
        i <= x@.len(),
    ensures
        r as int == i + run_len(x@, i as int, word),
        i <= r <= x@.len(),
{
    let mut j: usize = i;
    proof {
        lemma_run_len(x@, i as int, word);
    }
    while j < x.len() && char_ok(x[j], word)
        invariant
            i <= j <= x@.len(),
            run_len(x@, i as int, word) == (j - i) + run_len(x@, j as int, word),
        decreases x@.len() - j,
    {
        j += 1;
    }
    j
}

/// The module a line imports from.
pub fn crate_import(line: &str) -> (r: Option<String>)
    ensures
        crate_import_of(line@) == (match r {
            Some(s) => Some(s@),
            None => None::<Seq<char>>,
        }),
{
    let x = chars_of(line);
    if x.len() < 4 || x[0] != 'u' || x[1] != 's' || x[2] != 'e' || x[3] != '\\' {
        proof {
            if x@.len() >= 4 {
                assert(x@.take(4) != seq!['u', 's', 'e', '\\']) by {
                    if x@.take(4) == seq!['u', 's', 'e', '\\'] {
                        assert(x@.take(4)[0] == x@[0]);
                        assert(x@.take(4)[1] == x@[1]);
                        assert(x@.take(4)[2] == x@[2]);
                        assert(x@.take(4)[3] == x@[3]);
                    }
                }
            }
        }
        return None;
    }
    assert(x@.take(4) =~= seq!['u', 's', 'e', '\\']);
    let a = run_end(&x, 4, false);
    if a == 4 || x.len() - a < 7 || x[a] != 'c' || x[a + 1] != 'r' || x[a + 2] != 'a' || x[a + 3] != 't'
        || x[a + 4] != 'e' || x[a + 5] != ':' || x[a + 6] != ':' {
        proof {
            let colons = seq!['c', 'r', 'a', 't', 'e', ':', ':'];
            if x@.len() >= a + 7 && x@.subrange(a as int, a + 7) == colons {
                assert(x@.subrange(a as int, a + 7)[0] == x@[a as int]);
                assert(x@.subrange(a as int, a + 7)[1] == x@[a + 1]);
                assert(x@.subrange(a as int, a + 7)[2] == x@[a + 2]);
                assert(x@.subrange(a as int, a + 7)[3] == x@[a + 3]);
                assert(x@.subrange(a as int, a + 7)[4] == x@[a + 4]);
                assert(x@.subrange(a as int, a + 7)[5] == x@[a + 5]);
                assert(x@.subrange(a as int, a + 7)[6] == x@[a + 6]);
            }
        }
        return None;
    }
    assert(x@.subrange(a as int, a + 7) =~= seq!['c', 'r', 'a', 't', 'e', ':', ':']);
    let b = run_end(&x, a + 7, true);
    if b == a + 7 {
        return None;
    }
    Some(string_of_range(&x, a + 7, b))
}

/// Modules and the modules each imports, in the order first seen.
#[derive(Debug, Clone)]
pub struct ModuleGraph(pub Vec<(String, Vec<String>)>);

/// The file stem of a path: what follows the last `/`, up to its last `.`.
pub fn module_name(path: &str) -> (r: Option<String>)
    ensures
        r is Some ==> r->0@.len() <= path@.len(),
{
    let x = chars_of(path);
    let mut start: usize = 0;
    let mut i: usize = 0;
    while i < x.len()
        invariant
            i <= x@.len(),
            start <= x@.len(),
        decreases x@.len() - i,
    {
        if x[i] == '/' {
            start = i + 1;
        }
        i += 1;
    }
    let mut end: usize = x.len();
    let mut j: usize = x.len();
    while j > start && j - start > 1
        invariant
            start <= j <= x@.len(),
            start <= end <= x@.len(),
        decreases j,
    {
        if x[j - 1] == '.' {
            end = j - 1;
            break;
        }
        j -= 1;
    }
    if end <= start {
        return None;
    }
    Some(string_of_range(&x, start, end))
}

fn add_unique(v: &mut Vec<String>, s: String) {
    let mut i: usize = 0;
    while i < v.len()
        invariant
            i <= v@.len(),
        decreases v@.len() - i,
    {
        if str_eq(v[i].as_str(), s.as_str()) {
            return;
        }
        i += 1;
    }
    v.push(s);
}

/// The import graph of the given `(path, contents)` source files: every module, with
/// the other modules it imports through `use crate::...`.
pub fn collect_graph(files: &Vec<(String, String)>) -> (r: ModuleGraph)
    ensures
        r.0@.len() <= files@.len(),
{
    let mut graph: Vec<(String, Vec<String>)> = Vec::new();
    let mut f: usize = 0;
    while f < files.len()
        invariant
            f <= files@.len(),
            graph@.len() <= f,
        decreases files@.len() - f,
    {
        if let Some(module) = module_name(files[f].0.as_str()) {
            let mut imports: Vec<String> = Vec::new();
            let ls = crate::text::lines(files[f].1.as_str());
            let mut i: usize = 0;
            while i < ls.len()
                invariant
                    i <= ls@.len(),
                decreases ls@.len() - i,
            {
                let t = crate::scanner::strip_leading_ws(ls[i].as_str());
                if let Some(dep) = crate_import(t.as_str()) {
                    if !str_eq(dep.as_str(), module.as_str()) {
                        add_unique(&mut imports, dep);
                    }
                }
                i += 1;
            }
            let mut k: usize = 0;
            let mut merged = false;
            while k < graph.len()
                invariant
                    k <= graph@.len(),
                    graph@.len() <= f,
                decreases graph@.len() - k,
            {
                if str_eq(graph[k].0.as_str(), module.as_str()) {
                    let mut j: usize = 0;
                    while j < imports.len()
                        invariant
                            j <= imports@.len(),
                            k < graph@.len(),
                            graph@.len() <= f,
                        decreases imports@.len() - j,
                    {
                        let mut entry = graph[k].1.clone();
                        add_unique(&mut entry, imports[j].clone());
                        let name = graph[k].0.clone();
                        graph.set(k, (name, entry));
                        j += 1;
                    }
                    merged = true;
                    break;
                }
                k += 1;
            }
            if !merged {
                graph.push((module, imports));
            }
        }
        f += 1;
    }
    ModuleGraph(graph)
}

} // verus!
