//! Compact JSON text for a value: no white space, object entries in stored order,
//! strings escaped as serde_json escapes them.
use crate::json::{lemma_entries_view, lemma_list_view, Json, JsonV};
use crate::text::push_char;
use vstd::prelude::*;

verus! {

pub open spec fn hex_digit(d: int) -> char {
    if d == 0 { '0' } else if d == 1 { '1' } else if d == 2 { '2' } else if d == 3 { '3' }
    else if d == 4 { '4' } else if d == 5 { '5' } else if d == 6 { '6' } else if d == 7 { '7' }
    else if d == 8 { '8' } else if d == 9 { '9' } else if d == 10 { 'a' } else if d == 11 { 'b' }
    else if d == 12 { 'c' } else if d == 13 { 'd' } else if d == 14 { 'e' } else { 'f' }
}

pub fn hex_digit_exec(d: u32) -> (c: char)
    requires
        d < 16,
    ensures
        c == hex_digit(d as int),
{
    if d == 0 { '0' } else if d == 1 { '1' } else if d == 2 { '2' } else if d == 3 { '3' }
    else if d == 4 { '4' } else if d == 5 { '5' } else if d == 6 { '6' } else if d == 7 { '7' }
    else if d == 8 { '8' } else if d == 9 { '9' } else if d == 10 { 'a' } else if d == 11 { 'b' }
    else if d == 12 { 'c' } else if d == 13 { 'd' } else if d == 14 { 'e' } else { 'f' }
}

/// Decimal digits of `n`.
pub open spec fn dec(n: u64) -> Seq<char>
    decreases n,
{
    if n < 10 {
        seq![hex_digit(n as int)]
    } else {
        dec(n / 10).push(hex_digit((n % 10) as int))
    }
}

pub fn push_dec(out: &mut String, n: u64)
    ensures
        final(out)@ == old(out)@ + dec(n),
    decreases n,
{
    if n >= 10 {
        push_dec(out, n / 10);
    }
    push_char(out, hex_digit_exec((n % 10) as u32));
    assert(final(out)@ =~= old(out)@ + dec(n));
}

/// How one character of a string appears inside the quotes.
pub open spec fn esc(c: char) -> Seq<char> {
    if c == '"' {
        seq!['\\', '"']
    } else if c == '\\' {
        seq!['\\', '\\']
    } else if c == '\x08' {
        seq!['\\', 'b']
    } else if c == '\t' {
        seq!['\\', 't']
    } else if c == '\n' {
        seq!['\\', 'n']
    } else if c == '\x0c' {
        seq!['\\', 'f']
    } else if c == '\r' {
        seq!['\\', 'r']
    } else if ' ' > c {
        seq!['\\', 'u', '0', '0', hex_digit((c as int) / 16), hex_digit((c as int) % 16)]
    } else {
        seq![c]
    }
}

pub open spec fn esc_str(s: Seq<char>) -> Seq<char>
    decreases s.len(),
{
    if s.len() == 0 {
        Seq::empty()
    } else {
        esc_str(s.drop_last()) + esc(s.last())
    }
}

pub open spec fn quoted(s: Seq<char>) -> Seq<char> {
    seq!['"'] + esc_str(s) + seq!['"']
}

pub open spec fn enc_list(a: Seq<JsonV>, n: nat) -> Seq<char>
    decreases a, n,
{
    if n == 0 || n > a.len() {
        Seq::empty()
    } else if n == 1 {
        enc(a[0])
    } else {
        enc_list(a, (n - 1) as nat) + seq![','] + enc(a[n - 1])
    }
}

pub open spec fn enc_entries(e: Seq<(Seq<char>, JsonV)>, n: nat) -> Seq<char>
    decreases e, n,
{
    if n == 0 || n > e.len() {
        Seq::empty()
    } else {
        let item = quoted(e[n - 1].0) + seq![':'] + enc(e[n - 1].1);
        if n == 1 {
            item
        } else {
            enc_entries(e, (n - 1) as nat) + seq![','] + item
        }
    }
}

/// The JSON text of a value.
pub open spec fn enc(j: JsonV) -> Seq<char>
    decreases j, 0nat,
{
    match j {
        JsonV::Null => seq!['n', 'u', 'l', 'l'],
        JsonV::Bool(b) => if b {
            seq!['t', 'r', 'u', 'e']
        } else {
            seq!['f', 'a', 'l', 's', 'e']
        },
        JsonV::Num(n) => dec(n),
        JsonV::Str(s) => quoted(s),
        JsonV::Arr(a) => seq!['['] + enc_list(a, a.len()) + seq![']'],
        JsonV::Obj(e) => seq!['{'] + enc_entries(e, e.len()) + seq!['}'],
    }
}

fn push_esc(out: &mut String, c: char)
    ensures
        final(out)@ == old(out)@ + esc(c),
{
    let ghost before = out@;
    if c == '"' {
        push_char(out, '\\');
        push_char(out, '"');
    } else if c == '\\' {
        push_char(out, '\\');
        push_char(out, '\\');
    } else if c == '\x08' {
        push_char(out, '\\');
        push_char(out, 'b');
    } else if c == '\t' {
        push_char(out, '\\');
        push_char(out, 't');
    } else if c == '\n' {
        push_char(out, '\\');
        push_char(out, 'n');
    } else if c == '\x0c' {
        push_char(out, '\\');
        push_char(out, 'f');
    } else if c == '\r' {
        push_char(out, '\\');
        push_char(out, 'r');
    } else if ' ' > c {
        let v = c as u32;
        push_char(out, '\\');
        push_char(out, 'u');
        push_char(out, '0');
        push_char(out, '0');
        push_char(out, hex_digit_exec(v / 16));
        push_char(out, hex_digit_exec(v % 16));
    } else {
        push_char(out, c);
    }
    assert(out@ =~= before + esc(c));
}

pub fn push_quoted(out: &mut String, s: &str)
    ensures
        final(out)@ == old(out)@ + quoted(s@),
{
    let ghost before = out@;
    let x = crate::text::chars_of(s);
    push_char(out, '"');
    let mut i: usize = 0;
    while i < x.len()
        invariant
            x@ == s@,
            i <= x@.len(),
            out@ == before + seq!['"'] + esc_str(s@.take(i as int)),
        decreases x@.len() - i,
    {
        assert(s@.take(i + 1).drop_last() =~= s@.take(i as int));
        push_esc(out, x[i]);
        i += 1;
        assert(out@ =~= before + seq!['"'] + esc_str(s@.take(i as int)));
    }
    assert(s@.take(x.len() as int) =~= s@);
    push_char(out, '"');
    assert(out@ =~= before + quoted(s@));
}

fn push_list(out: &mut String, v: &Vec<Json>)
    ensures
        final(out)@ == old(out)@ + enc_list(crate::json::list_view(*v), v.len() as nat),
    decreases v, 1nat,
{
    let ghost before = out@;
    let ghost lv = crate::json::list_view(*v);
    proof {
        lemma_list_view(*v, v.len() as nat);
    }
    let mut i: usize = 0;
    while i < v.len()
        invariant
            lv == crate::json::list_view(*v),
            lv.len() == v.len(),
            forall|j: int| 0 <= j < v.len() ==> #[trigger] lv[j] == v[j]@,
            i <= v.len(),
            out@ == before + enc_list(lv, i as nat),
        decreases v.len() - i,
    {
        proof {
            vstd::std_specs::vec::axiom_vec_index_decreases(*v, i as int);
        }
        if i > 0 {
            push_char(out, ',');
        }
        push_json(out, &v[i]);
        i += 1;
        assert(out@ =~= before + enc_list(lv, i as nat));
    }
}

fn push_entries(out: &mut String, v: &Vec<(String, Json)>)
    ensures
        final(out)@ == old(out)@ + enc_entries(crate::json::entries_view(*v), v.len() as nat),
    decreases v, 1nat,
{
    let ghost before = out@;
    let ghost ev = crate::json::entries_view(*v);
    proof {
        lemma_entries_view(*v, v.len() as nat);
    }
    let mut i: usize = 0;
    while i < v.len()
        invariant
            ev == crate::json::entries_view(*v),
            ev.len() == v.len(),
            forall|j: int| 0 <= j < v.len() ==> #[trigger] ev[j] == (v[j].0@, v[j].1@),
            i <= v.len(),
            out@ == before + enc_entries(ev, i as nat),
        decreases v.len() - i,
    {
        proof {
            vstd::std_specs::vec::axiom_vec_index_decreases(*v, i as int);
        }
        if i > 0 {
            push_char(out, ',');
        }
        push_quoted(out, v[i].0.as_str());
        push_char(out, ':');
        push_json(out, &v[i].1);
        i += 1;
        assert(out@ =~= before + enc_entries(ev, i as nat));
    }
}

/// Appends the JSON text of `j`.
pub fn push_json(out: &mut String, j: &Json)
    ensures
        final(out)@ == old(out)@ + enc(j@),
    decreases j, 0nat,
{
    let ghost before = out@;
    match j {
        Json::Null => {
            push_char(out, 'n');
            push_char(out, 'u');
            push_char(out, 'l');
            push_char(out, 'l');
        },
        Json::Bool(b) => {
            if *b {
                push_char(out, 't');
                push_char(out, 'r');
                push_char(out, 'u');
                push_char(out, 'e');
            } else {
                push_char(out, 'f');
                push_char(out, 'a');
                push_char(out, 'l');
                push_char(out, 's');
                push_char(out, 'e');
            }
        },
        Json::Num(n) => push_dec(out, *n),
        Json::Str(s) => push_quoted(out, s.as_str()),
        Json::Arr(v) => {
            proof {
                lemma_list_view(*v, v.len() as nat);
            }
            push_char(out, '[');
            push_list(out, v);
            push_char(out, ']');
        },
        Json::Obj(v) => {
            proof {
                lemma_entries_view(*v, v.len() as nat);
            }
            push_char(out, '{');
            push_entries(out, v);
            push_char(out, '}');
        },
    }
    assert(out@ =~= before + enc(j@));
}

/// The JSON text of `j`.
pub fn to_text(j: &Json) -> (r: String)
    ensures
        r@ == enc(j@),
{
    let mut out = String::new();
    push_json(&mut out, j);
    assert(out@ =~= enc(j@));
    out
}

} // verus!
