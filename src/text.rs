//! Character-level string utilities with contracts over `Seq<char>`.
use vstd::prelude::*;

verus! {

/// The Unicode `White_Space` property, which `char::is_whitespace`, `str::trim` and
/// `str::split_whitespace` use.
pub open spec fn is_ws(c: char) -> bool {
    c == ' ' || ('\t' <= c && c <= '\r') || c == '\u{85}' || c == '\u{a0}' || c == '\u{1680}'
        || ('\u{2000}' <= c && c <= '\u{200a}') || c == '\u{2028}' || c == '\u{2029}'
        || c == '\u{202f}' || c == '\u{205f}' || c == '\u{3000}'
}

pub fn is_ws_char(c: char) -> (r: bool)
    ensures
        r == is_ws(c),
{
    c == ' ' || ('\t' <= c && c <= '\r') || c == '\u{85}' || c == '\u{a0}' || c == '\u{1680}'
        || ('\u{2000}' <= c && c <= '\u{200a}') || c == '\u{2028}' || c == '\u{2029}'
        || c == '\u{202f}' || c == '\u{205f}' || c == '\u{3000}'
}

pub open spec fn is_digit(c: char) -> bool {
    '0' <= c && c <= '9'
}

/// Lower-case form of a string, as `str::to_lowercase` computes it.
pub uninterp spec fn lower_of(s: Seq<char>) -> Seq<char>;

/// Relies on `str::to_lowercase`: the result depends on the characters alone.
#[verifier::external_body]
pub fn to_lower(s: &str) -> (r: String)
    ensures
        r@ == lower_of(s@),
{
    s.to_lowercase()
}

/// Relies on `String::push`: appends one character.
#[verifier::external_body]
pub fn push_char(s: &mut String, c: char)
    ensures
        final(s)@ == old(s)@.push(c),
{
    s.push(c)
}

pub fn chars_of(s: &str) -> (r: Vec<char>)
    ensures
        r@ == s@,
{
    let n = s.unicode_len();
    let mut v: Vec<char> = Vec::new();
    let mut i: usize = 0;
    while i < n
        invariant
            n == s@.len(),
            i <= n,
            v@ == s@.take(i as int),
        decreases n - i,
    {
        v.push(s.get_char(i));
        i += 1;
        assert(v@ =~= s@.take(i as int));
    }
    assert(v@ =~= s@);
    v
}

pub fn string_of_range(v: &Vec<char>, a: usize, b: usize) -> (r: String)
    requires
        a <= b <= v@.len(),
    ensures
        r@ == v@.subrange(a as int, b as int),
{
    let mut s = String::new();
    let mut i: usize = a;
    while i < b
        invariant
            a <= i <= b <= v@.len(),
            s@ == v@.subrange(a as int, i as int),
        decreases b - i,
    {
        push_char(&mut s, v[i]);
        i += 1;
        assert(s@ =~= v@.subrange(a as int, i as int));
    }
    s
}

pub fn str_eq(a: &str, b: &str) -> (r: bool)
    ensures
        r == (a@ == b@),
{
    let x = chars_of(a);
    let y = chars_of(b);
    if x.len() != y.len() {
        return false;
    }
    let mut i: usize = 0;
    while i < x.len()
        invariant
            x@ == a@,
            y@ == b@,
            x@.len() == y@.len(),
            i <= x@.len(),
            forall|j: int| 0 <= j < i ==> x@[j] == y@[j],
        decreases x@.len() - i,
    {
        if x[i] != y[i] {
            return false;
        }
        i += 1;
    }
    assert(x@ =~= y@);
    true
}

pub fn concat(a: &str, b: &str) -> (r: String)
    ensures
        r@ == a@ + b@,
{
    let mut s = String::from_str(a);
    s.append(b);
    s
}

pub open spec fn occurs_at(s: Seq<char>, pat: Seq<char>, i: int) -> bool {
    0 <= i && i + pat.len() <= s.len() && s.subrange(i, i + pat.len()) == pat
}

pub open spec fn contains_seq(s: Seq<char>, pat: Seq<char>) -> bool {
    exists|i: int| occurs_at(s, pat, i)
}

pub open spec fn starts_with_seq(s: Seq<char>, pat: Seq<char>) -> bool {
    occurs_at(s, pat, 0)
}

pub open spec fn ends_with_seq(s: Seq<char>, pat: Seq<char>) -> bool {
    occurs_at(s, pat, s.len() - pat.len())
}

pub fn occurs_at_exec(s: &Vec<char>, pat: &Vec<char>, i: usize) -> (r: bool)
    ensures
        r == occurs_at(s@, pat@, i as int),
{
    if i > s.len() || pat.len() > s.len() - i {
        return false;
    }
    let mut k: usize = 0;
    while k < pat.len()
        invariant
            i + pat.len() <= s.len(),
            k <= pat@.len(),
            forall|j: int| 0 <= j < k ==> s@[i + j] == pat@[j],
        decreases pat@.len() - k,
    {
        if s[i + k] != pat[k] {
            assert(s@.subrange(i as int, i + pat@.len())[k as int] != pat@[k as int]);
            return false;
        }
        k += 1;
    }
    assert(s@.subrange(i as int, i + pat@.len()) =~= pat@);
    true
}

pub fn contains(s: &str, pat: &str) -> (r: bool)
    ensures
        r == contains_seq(s@, pat@),
{
    let x = chars_of(s);
    let p = chars_of(pat);
    let mut i: usize = 0;
    while i < x.len()
        invariant
            x@ == s@,
            p@ == pat@,
            i <= x@.len(),
            forall|j: int| 0 <= j < i ==> !occurs_at(s@, pat@, j),
        decreases x@.len() - i,
    {
        if occurs_at_exec(&x, &p, i) {
            return true;
        }
        i += 1;
    }
    if occurs_at_exec(&x, &p, i) {
        return true;
    }
    assert forall|j: int| !occurs_at(s@, pat@, j) by {
        if 0 <= j && j + pat@.len() <= s@.len() {
            assert(j <= i);
        }
    }
    false
}

pub fn starts_with(s: &str, pat: &str) -> (r: bool)
    ensures
        r == starts_with_seq(s@, pat@),
{
    let x = chars_of(s);
    let p = chars_of(pat);
    occurs_at_exec(&x, &p, 0)
}

pub fn ends_with(s: &str, pat: &str) -> (r: bool)
    ensures
        r == ends_with_seq(s@, pat@),
{
    let x = chars_of(s);
    let p = chars_of(pat);
    if p.len() > x.len() {
        return false;
    }
    occurs_at_exec(&x, &p, x.len() - p.len())
}

/// Index of the first character that is not white space (the length if there is none).
pub open spec fn first_non_ws(s: Seq<char>, i: int) -> int
    decreases s.len() - i,
{
    if i >= s.len() {
        s.len() as int
    } else if !is_ws(s[i]) {
        i
    } else {
        first_non_ws(s, i + 1)
    }
}

/// One past the last character that is not white space, at or above `lo`.
pub open spec fn end_non_ws(s: Seq<char>, j: int, lo: int) -> int
    decreases j - lo,
{
    if j <= lo {
        lo
    } else if !is_ws(s[j - 1]) {
        j
    } else {
        end_non_ws(s, j - 1, lo)
    }
}

/// What `str::trim` leaves of `s`.
pub open spec fn trim_seq(s: Seq<char>) -> Seq<char> {
    let a = first_non_ws(s, 0);
    s.subrange(a, end_non_ws(s, s.len() as int, a))
}

proof fn lemma_first_non_ws(s: Seq<char>, i: int)
    requires
        0 <= i <= s.len(),
    ensures
        i <= first_non_ws(s, i) <= s.len(),
    decreases s.len() - i,
{
    if i < s.len() && is_ws(s[i]) {
        lemma_first_non_ws(s, i + 1);
    }
}

proof fn lemma_end_non_ws(s: Seq<char>, j: int, lo: int)
    requires
        0 <= lo <= j <= s.len(),
    ensures
        lo <= end_non_ws(s, j, lo) <= j,
    decreases j - lo,
{
    if j > lo && is_ws(s[j - 1]) {
        lemma_end_non_ws(s, j - 1, lo);
    }
}

pub fn trim(s: &str) -> (r: String)
    ensures
        r@ == trim_seq(s@),
{
    let x = chars_of(s);
    let mut a: usize = 0;
    while a < x.len() && is_ws_char(x[a])
        invariant
            x@ == s@,
            a <= x@.len(),
            first_non_ws(s@, a as int) == first_non_ws(s@, 0),
        decreases x@.len() - a,
    {
        a += 1;
    }
    let mut b: usize = x.len();
    while b > a && is_ws_char(x[b - 1])
        invariant
            x@ == s@,
            a <= b <= x@.len(),
            a == first_non_ws(s@, 0),
            end_non_ws(s@, b as int, a as int) == end_non_ws(s@, s@.len() as int, a as int),
        decreases b,
    {
        b -= 1;
    }
    proof {
        lemma_first_non_ws(s@, 0);
    }
    string_of_range(&x, a, b)
}


/// The pieces between occurrences of `c`, as `str::split(c)` yields them.
pub open spec fn split_char(s: Seq<char>, c: char) -> Seq<Seq<char>>
    decreases s.len(),
{
    if s.len() == 0 {
        seq![Seq::<char>::empty()]
    } else {
        let rest = split_char(s.drop_last(), c);
        if s.last() == c {
            rest.push(Seq::<char>::empty())
        } else {
            rest.update(rest.len() - 1, rest.last().push(s.last()))
        }
    }
}

pub proof fn lemma_split_char_nonempty(s: Seq<char>, c: char)
    ensures
        split_char(s, c).len() >= 1,
    decreases s.len(),
{
    if s.len() > 0 {
        lemma_split_char_nonempty(s.drop_last(), c);
    }
}

pub fn split_on(s: &str, c: char) -> (r: Vec<String>)
    ensures
        r@.map_values(|x: String| x@) == split_char(s@, c),
{
    let x = chars_of(s);
    let mut done: Vec<String> = Vec::new();
    let mut cur = String::new();
    let mut i: usize = 0;
    while i < x.len()
        invariant
            x@ == s@,
            i <= x@.len(),
            done@.map_values(|y: String| y@).push(cur@) == split_char(s@.take(i as int), c),
        decreases x@.len() - i,
    {
        proof {
            lemma_split_char_nonempty(s@.take(i as int), c);
            assert(s@.take(i + 1).drop_last() =~= s@.take(i as int));
        }
        if x[i] == c {
            let piece = cur;
            done.push(piece);
            cur = String::new();
            proof {
                assert(done@.map_values(|y: String| y@).push(cur@) =~= split_char(
                    s@.take(i + 1),
                    c,
                ));
            }
        } else {
            let ghost before = cur@;
            push_char(&mut cur, x[i]);
            proof {
                assert(done@.map_values(|y: String| y@).push(cur@) =~= split_char(
                    s@.take(i + 1),
                    c,
                ));
            }
        }
        i += 1;
    }
    assert(s@.take(x.len() as int) =~= s@);
    done.push(cur);
    assert(done@.map_values(|y: String| y@) =~= split_char(s@, c));
    done
}

/// Drops one trailing carriage return.
pub open spec fn strip_cr(l: Seq<char>) -> Seq<char> {
    if l.len() > 0 && l.last() == '\r' {
        l.drop_last()
    } else {
        l
    }
}

/// The lines of `s` as `str::lines` yields them: split at `\n`, a `\r` before the `\n`
/// dropped, and no empty line after a final `\n`.
pub open spec fn lines_of(s: Seq<char>) -> Seq<Seq<char>> {
    let p = split_char(s, '\n');
    let ended = p.drop_last().map_values(|l: Seq<char>| strip_cr(l));
    if p.last().len() == 0 {
        ended
    } else {
        ended.push(p.last())
    }
}

pub fn lines(s: &str) -> (r: Vec<String>)
    ensures
        r@.map_values(|x: String| x@) == lines_of(s@),
{
    let pieces = split_on(s, '\n');
    proof {
        lemma_split_char_nonempty(s@, '\n');
    }
    let ghost p = split_char(s@, '\n');
    let n = pieces.len();
    let mut out: Vec<String> = Vec::new();
    let mut i: usize = 0;
    while i + 1 < n
        invariant
            n == pieces@.len(),
            n >= 1,
            p == split_char(s@, '\n'),
            pieces@.map_values(|x: String| x@) == p,
            i < n,
            out.len() == i,
            forall|k: int| 0 <= k < i ==> #[trigger] out@[k]@ == strip_cr(p[k]),
        decreases n - i,
    {
        let piece = &pieces[i];
        let t = chars_of(piece.as_str());
        assert(t@ == p[i as int]);
        let stripped = if t.len() > 0 && t[t.len() - 1] == '\r' {
            string_of_range(&t, 0, t.len() - 1)
        } else {
            string_of_range(&t, 0, t.len())
        };
        proof {
            assert(t@.subrange(0, t@.len() as int) =~= t@);
            assert(t@.len() > 0 ==> t@.subrange(0, t@.len() - 1) =~= t@.drop_last());
        }
        assert(stripped@ == strip_cr(p[i as int]));
        out.push(stripped);
        i += 1;
    }
    assert(out@.map_values(|x: String| x@) =~= p.drop_last().map_values(
        |l: Seq<char>| strip_cr(l),
    ));
    let last = &pieces[n - 1];
    if last.unicode_len() > 0 {
        out.push(last.clone());
        assert(out@.map_values(|x: String| x@) =~= lines_of(s@));
    }
    out
}

/// First index at or after `i` where `pat` occurs, or -1.
pub open spec fn find_from(s: Seq<char>, pat: Seq<char>, i: int) -> int
    decreases s.len() + 1 - i,
{
    if i < 0 || i + pat.len() > s.len() {
        -1
    } else if occurs_at(s, pat, i) {
        i
    } else {
        find_from(s, pat, i + 1)
    }
}

pub fn find(s: &Vec<char>, pat: &Vec<char>) -> (r: Option<usize>)
    ensures
        match r {
            Some(i) => find_from(s@, pat@, 0) == i as int,
            None => find_from(s@, pat@, 0) == -1,
        },
{
    if pat.len() > s.len() {
        return None;
    }
    let mut i: usize = 0;
    while i <= s.len() - pat.len()
        invariant
            pat@.len() <= s@.len(),
            i <= s@.len() - pat@.len() + 1,
            find_from(s@, pat@, 0) == find_from(s@, pat@, i as int),
        decreases s@.len() - pat@.len() + 1 - i,
    {
        if occurs_at_exec(s, pat, i) {
            return Some(i);
        }
        if i == s.len() - pat.len() {
            assert(find_from(s@, pat@, i + 1) == -1);
            return None;
        }
        i += 1;
    }
    None
}

/// The piece after the first occurrence of `pat`, up to the next one, as
/// `str::split(pat).nth(1)` gives it.
pub open spec fn second_piece(s: Seq<char>, pat: Seq<char>) -> Option<Seq<char>> {
    let a = find_from(s, pat, 0);
    if a < 0 {
        None
    } else {
        let rest = s.skip(a + pat.len());
        let b = find_from(rest, pat, 0);
        Some(if b < 0 { rest } else { rest.take(b) })
    }
}

pub proof fn lemma_find_from_range(s: Seq<char>, pat: Seq<char>, i: int)
    ensures
        find_from(s, pat, i) == -1 || (i <= find_from(s, pat, i) && find_from(s, pat, i)
            + pat.len() <= s.len()),
    decreases s.len() + 1 - i,
{
    if !(i < 0 || i + pat.len() > s.len()) && !occurs_at(s, pat, i) {
        lemma_find_from_range(s, pat, i + 1);
    }
}

pub fn second_piece_exec(s: &str, pat: &str) -> (r: Option<String>)
    ensures
        second_piece(s@, pat@) == (match r {
            Some(x) => Some(x@),
            None => None::<Seq<char>>,
        }),
{
    let x = chars_of(s);
    let p = chars_of(pat);
    match find(&x, &p) {
        None => None,
        Some(a) => {
            proof {
                lemma_find_from_range(s@, pat@, 0);
            }
            assert(a + p@.len() <= x@.len());
            assert(a + p.len() <= x.len());
            let start = a + p.len();
            let rest = string_of_range(&x, start, x.len());
            assert(rest@ =~= s@.skip(start as int));
            let rx = chars_of(rest.as_str());
            match find(&rx, &p) {
                None => Some(rest),
                Some(b) => {
                    proof {
                        lemma_find_from_range(rest@, pat@, 0);
                    }
                    let r = string_of_range(&rx, 0, b);
                    assert(r@ =~= rest@.take(b as int));
                    Some(r)
                },
            }
        },
    }
}

/// `s` without all leading copies of `c`, as `str::trim_start_matches(c)` leaves it.
pub open spec fn strip_leading(s: Seq<char>, c: char) -> Seq<char>
    decreases s.len(),
{
    if s.len() > 0 && s[0] == c {
        strip_leading(s.drop_first(), c)
    } else {
        s
    }
}

pub fn strip_leading_exec(s: &str, c: char) -> (r: String)
    ensures
        r@ == strip_leading(s@, c),
{
    let x = chars_of(s);
    let mut i: usize = 0;
    assert(s@.skip(0) =~= s@);
    while i < x.len() && x[i] == c
        invariant
            x@ == s@,
            i <= x@.len(),
            strip_leading(s@, c) == strip_leading(s@.skip(i as int), c),
        decreases x@.len() - i,
    {
        assert(s@.skip(i as int).drop_first() =~= s@.skip(i + 1));
        i += 1;
    }
    let r = string_of_range(&x, i, x.len());
    assert(r@ =~= s@.skip(i as int));
    r
}

/// `s` without all trailing copies of `pat`, as `str::trim_end_matches(pat)` leaves it.
pub open spec fn strip_trailing(s: Seq<char>, pat: Seq<char>) -> Seq<char>
    decreases s.len(),
{
    if pat.len() > 0 && ends_with_seq(s, pat) {
        strip_trailing(s.take(s.len() - pat.len()), pat)
    } else {
        s
    }
}

pub fn strip_trailing_exec(s: &str, pat: &str) -> (r: String)
    ensures
        r@ == strip_trailing(s@, pat@),
{
    let x = chars_of(s);
    let p = chars_of(pat);
    let mut end: usize = x.len();
    if p.len() == 0 {
        assert(x@.subrange(0, end as int) =~= s@);
        return string_of_range(&x, 0, end);
    }
    assert(s@.take(end as int) =~= s@);
    while end >= p.len() && occurs_at_exec(&x, &p, end - p.len())
        invariant
            x@ == s@,
            p@ == pat@,
            p@.len() > 0,
            end <= x@.len(),
            strip_trailing(s@, pat@) == strip_trailing(s@.take(end as int), pat@),
        decreases end,
    {
        assert(s@.take(end as int).subrange(end - p@.len(), end as int) =~= s@.subrange(
            end - p@.len(),
            end as int,
        ));
        assert(s@.take(end as int).take(end - p@.len()) =~= s@.take(end - p@.len()));
        end -= p.len();
    }
    proof {
        if end >= p@.len() {
            assert(s@.take(end as int).subrange(end - p@.len(), end as int) =~= s@.subrange(
                end - p@.len(),
                end as int,
            ));
        }
    }
    string_of_range(&x, 0, end)
}

/// Index of the first white-space character, or the length.
pub open spec fn first_ws(s: Seq<char>, i: int) -> int
    decreases s.len() - i,
{
    if i >= s.len() {
        s.len() as int
    } else if is_ws(s[i]) {
        i
    } else {
        first_ws(s, i + 1)
    }
}

/// The first white-space separated word of `s`, empty if there is none.
pub open spec fn first_word(s: Seq<char>) -> Seq<char> {
    let t = s.skip(first_non_ws(s, 0));
    t.take(first_ws(t, 0))
}

proof fn lemma_first_ws(s: Seq<char>, i: int)
    requires
        0 <= i <= s.len(),
    ensures
        i <= first_ws(s, i) <= s.len(),
    decreases s.len() - i,
{
    if i < s.len() && !is_ws(s[i]) {
        lemma_first_ws(s, i + 1);
    }
}

pub fn first_word_exec(s: &str) -> (r: String)
    ensures
        r@ == first_word(s@),
{
    let x = chars_of(s);
    let mut a: usize = 0;
    while a < x.len() && is_ws_char(x[a])
        invariant
            x@ == s@,
            a <= x@.len(),
            first_non_ws(s@, a as int) == first_non_ws(s@, 0),
        decreases x@.len() - a,
    {
        a += 1;
    }
    let ghost t = s@.skip(a as int);
    let mut b: usize = a;
    while b < x.len() && !is_ws_char(x[b])
        invariant
            x@ == s@,
            a <= b <= x@.len(),
            t == s@.skip(a as int),
            first_ws(t, (b - a) as int) == first_ws(t, 0),
        decreases x@.len() - b,
    {
        b += 1;
    }
    let r = string_of_range(&x, a, b);
    assert(r@ =~= t.take(first_ws(t, 0)));
    r
}

/// Value of a run of decimal digits.
pub open spec fn digits_value(s: Seq<char>) -> int
    decreases s.len(),
{
    if s.len() == 0 {
        0
    } else {
        10 * digits_value(s.drop_last()) + (s.last() as int - '0' as int)
    }
}

pub open spec fn all_digits(s: Seq<char>) -> bool {
    forall|i: int| 0 <= i < s.len() ==> is_digit(#[trigger] s[i])
}

/// What `str::parse::<u64>` returns: an optional `+`, then one or more decimal digits
/// whose value fits.
pub open spec fn parse_u64_spec(s: Seq<char>) -> Option<u64> {
    let d = if s.len() > 0 && s[0] == '+' {
        s.drop_first()
    } else {
        s
    };
    if d.len() > 0 && all_digits(d) && digits_value(d) <= u64::MAX {
        Some(digits_value(d) as u64)
    } else {
        None
    }
}

proof fn lemma_digits_monotone(s: Seq<char>, i: int, j: int)
    requires
        0 <= i <= j <= s.len(),
        all_digits(s),
    ensures
        digits_value(s.take(i)) <= digits_value(s.take(j)),
        digits_value(s.take(i)) >= 0,
    decreases j - i,
{
    if i < j {
        lemma_digits_monotone(s, i, j - 1);
        assert(s.take(j).drop_last() =~= s.take(j - 1));
        assert(is_digit(s[j - 1]));
    } else {
        lemma_digits_nonneg(s.take(i));
    }
}

proof fn lemma_digits_nonneg(s: Seq<char>)
    requires
        all_digits(s),
    ensures
        digits_value(s) >= 0,
    decreases s.len(),
{
    if s.len() > 0 {
        assert(all_digits(s.drop_last()));
        lemma_digits_nonneg(s.drop_last());
        assert(is_digit(s[s.len() - 1]));
    }
}

pub fn parse_u64(s: &str) -> (r: Option<u64>)
    ensures
        r == parse_u64_spec(s@),
{
    let x = chars_of(s);
    let start: usize = if x.len() > 0 && x[0] == '+' { 1 } else { 0 };
    let ghost d = if s@.len() > 0 && s@[0] == '+' { s@.drop_first() } else { s@ };
    assert(d =~= s@.skip(start as int));
    if start >= x.len() {
        assert(d.len() == 0);
        return None;
    }
    let mut i: usize = start;
    while i < x.len()
        invariant
            x@ == s@,
            start <= i <= x@.len(),
            d == s@.skip(start as int),
            d == (if s@.len() > 0 && s@[0] == '+' { s@.drop_first() } else { s@ }),
            forall|k: int| 0 <= k < i - start ==> is_digit(#[trigger] d[k]),
        decreases x@.len() - i,
    {
        if !('0' <= x[i] && x[i] <= '9') {
            assert(!is_digit(d[i - start]));
            return None;
        }
        i += 1;
    }
    assert(all_digits(d));
    let mut v: u64 = 0;
    let mut k: usize = start;
    while k < x.len()
        invariant
            x@ == s@,
            start <= k <= x@.len(),
            d == s@.skip(start as int),
            d == (if s@.len() > 0 && s@[0] == '+' { s@.drop_first() } else { s@ }),
            d.len() == x@.len() - start,
            all_digits(d),
            v as int == digits_value(d.take(k - start)),
        decreases x@.len() - k,
    {
        assert(d.take(k - start + 1).drop_last() =~= d.take(k - start));
        assert(d[k - start] == x@[k as int]);
        assert(is_digit(d[k - start]));
        let digit = (x[k] as u32 - '0' as u32) as u64;
        if v > 1844674407370955161 || (v == 1844674407370955161 && digit > 5) {
            proof {
                assert(digits_value(d.take(k - start + 1)) == 10 * v + digit);
                lemma_digits_monotone(d, k - start + 1, d.len() as int);
                assert(d.take(d.len() as int) =~= d);
            }
            return None;
        }
        v = v * 10 + digit;
        k += 1;
    }
    assert(d.take(d.len() as int) =~= d);
    Some(v)
}

} // verus!
