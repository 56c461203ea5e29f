//! Style checks on source files: sorted imports and module declarations.
use crate::order::{seq_le, str_le};
use crate::text::{chars_of, starts_with, starts_with_seq, str_eq, string_of_range, trim, trim_seq};
use vstd::prelude::*;

verus! {

#[derive(Debug, Clone)]
pub struct Violation {
    pub file: String,
    pub message: String,
}

/// A `use` or `pub use` line that starts at the first column.
pub fn is_use_declaration(line: &str) -> (r: bool)
    ensures
        r == (starts_with_seq(line@, "use "@) || starts_with_seq(line@, "pub use "@)),
{
    starts_with(line, "use ") || starts_with(line, "pub use ")
}

/// The name declared by a `mod`, `pub mod` or `pub(crate) mod` line.
pub fn module_name(line: &str) -> Option<String> {
    let t = trim(line);
    let x = chars_of(t.as_str());
    let skip: usize = if starts_with(t.as_str(), "pub(crate) mod ") {
        15
    } else if starts_with(t.as_str(), "pub mod ") {
        8
    } else if starts_with(t.as_str(), "mod ") {
        4
    } else {
        return None;
    };
    if skip > x.len() {
        return None;
    }
    let mut end: usize = skip;
    while end < x.len() && x[end] != ';' && x[end] != '{' && !crate::text::is_ws_char(x[end])
        invariant
            skip <= end <= x@.len(),
        decreases x@.len() - end,
    {
        end += 1;
    }
    if end == skip {
        return None;
    }
    Some(string_of_range(&x, skip, end))
}

/// Whether each item is at most the next in string order.
pub fn is_sorted(items: &Vec<String>) -> (r: bool)
    ensures
        r == forall|i: int| 0 <= i < items@.len() - 1 ==> seq_le(#[trigger] items@[i]@, items@[i + 1]@),
{
    let mut i: usize = 0;
    while i < items.len() && items.len() - i > 1
        invariant
            i <= items@.len(),
            forall|k: int| 0 <= k < i && k < items@.len() - 1 ==> seq_le(#[trigger] items@[k]@, items@[k + 1]@),
        decreases items@.len() - i,
    {
        let a = chars_of(items[i].as_str());
        let b = chars_of(items[i + 1].as_str());
        if !str_le(&a, &b) {
            return false;
        }
        i += 1;
    }
    true
}

fn trim_end(line: &str) -> String {
    let x = chars_of(line);
    let mut end: usize = x.len();
    while end > 0 && crate::text::is_ws_char(x[end - 1])
        invariant
            end <= x@.len(),
        decreases end,
    {
        end -= 1;
    }
    string_of_range(&x, 0, end)
}

fn report(out: &mut Vec<Violation>, file: &str, message: String)
    ensures
        final(out)@.len() == old(out)@.len() + 1,
        forall|q: int| 0 <= q < old(out)@.len() ==> final(out)@[q] == old(out)@[q],
        final(out)@.last().file@ == file@,
        final(out)@.last().message@ == message@,
{
    out.push(Violation { file: String::from_str(file), message });
}

/// The style violations of one file's contents: an empty module, unsorted imports,
/// unsorted or repeated module declarations.
pub fn validate_content(file: &str, content: &str) -> (r: Vec<Violation>)
    ensures
        forall|i: int| 0 <= i < r@.len() ==> (#[trigger] r@[i]).file@ == file@,
        trim_seq(content@).len() == 0 <==> (r@.len() > 0 && r@[0].message@ == "Empty module"@),
{
    proof {
        reveal_strlit("Empty module");
        reveal_strlit("Imports not sorted lexicographically");
        reveal_strlit("Module declarations not sorted");
        reveal_strlit("Duplicate module declaration: ");
        assert("Empty module"@.len() == 12);
        assert("Imports not sorted lexicographically"@.len() == 36);
        assert("Module declarations not sorted"@.len() == 30);
        assert("Duplicate module declaration: "@.len() == 30);
    }
    let ghost empty = trim_seq(content@).len() == 0;
    let mut out: Vec<Violation> = Vec::new();
    if trim(content).unicode_len() == 0 {
        report(&mut out, file, String::from_str("Empty module"));
    }
    assert((out@.len() > 0 && out@[0].message@ == "Empty module"@) <==> empty);
    let ls = crate::text::lines(content);
    let mut imports: Vec<String> = Vec::new();
    let mut modules: Vec<String> = Vec::new();
    let mut i: usize = 0;
    while i < ls.len()
        invariant
            i <= ls@.len(),
            (out@.len() > 0 && out@[0].message@ == "Empty module"@) <==> empty,
            forall|q: int| 0 <= q < out@.len() ==> (#[trigger] out@[q]).file@ == file@,
        decreases ls@.len() - i,
    {
        let line = trim_end(ls[i].as_str());
        if is_use_declaration(line.as_str()) {
            imports.push(trim(line.as_str()));
        }
        if let Some(name) = module_name(ls[i].as_str()) {
            modules.push(name);
        }
        i += 1;
    }
    proof {
        reveal_strlit("Empty module");
        reveal_strlit("Imports not sorted lexicographically");
        reveal_strlit("Module declarations not sorted");
        reveal_strlit("Duplicate module declaration: ");
        assert("Empty module"@.len() == 12);
        assert("Imports not sorted lexicographically"@.len() == 36);
        assert("Module declarations not sorted"@.len() == 30);
        assert("Duplicate module declaration: "@.len() == 30);
    }
    let ghost before = out@;
    if !is_sorted(&imports) {
        report(&mut out, file, String::from_str("Imports not sorted lexicographically"));
        proof {
            if before.len() > 0 {
                assert(out@[0] == before[0]);
            }
        }
    }
    assert((out@.len() > 0 && out@[0].message@ == "Empty module"@) <==> empty);
    if modules.len() > 0 {
        if !is_sorted(&modules) {
            report(&mut out, file, String::from_str("Module declarations not sorted"));
        }
        let mut seen: Vec<String> = Vec::new();
        let mut k: usize = 0;
        while k < modules.len()
            invariant
                k <= modules@.len(),
                "Empty module"@.len() == 12,
                "Module declarations not sorted"@.len() == 30,
                "Duplicate module declaration: "@.len() == 30,
                (out@.len() > 0 && out@[0].message@ == "Empty module"@) <==> empty,
                forall|q: int| 0 <= q < out@.len() ==> (#[trigger] out@[q]).file@ == file@,
            decreases modules@.len() - k,
        {
            let mut dup = false;
            let mut j: usize = 0;
            while j < seen.len()
                invariant
                    j <= seen@.len(),
                    k < modules@.len(),
                decreases seen@.len() - j,
            {
                if str_eq(seen[j].as_str(), modules[k].as_str()) {
                    dup = true;
                }
                j += 1;
            }
            if dup {
                let mut m = String::from_str("Duplicate module declaration: ");
                m.append(modules[k].as_str());
                assert(m@.len() >= 30);
                report(&mut out, file, m);
            } else {
                seen.push(modules[k].clone());
            }
            k += 1;
        }
    }
    out
}

} // verus!
