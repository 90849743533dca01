//! The text layer of RFC 5545: line unfolding and folding, TEXT escaping,
//! and `NAME;PARAM=VALUE:VALUE` property lines.
use vstd::prelude::*;
use crate::seqs::{filter_map, join, lemma_filter_map_step, lemma_take_full};
use crate::text::{
    append_chars, chars_of, first_index, has_prefix, lines, lines_of, owned, push_char,
    slice_chars, split_all, split_all_chars, split_inclusive, split_inclusive_chars, string_of,
    trim, trim_end, trim_end_chars, trimmed_chars, views, is_ws,
};

verus! {

// ----- unfolding -----------------------------------------------------

/// A physical line without its `\n` and then without its `\r`.
pub open spec fn strip_eol(l: Seq<char>) -> Seq<char> {
    let a = if l.len() > 0 && l.last() == '\n' {
        l.drop_last()
    } else {
        l
    };
    if a.len() > 0 && a.last() == '\r' {
        a.drop_last()
    } else {
        a
    }
}

/// How a physical line after the first joins the text: a continuation
/// (leading space or tab) loses that character and joins the previous
/// line, any other line starts a new one.
pub open spec fn joined(t: Seq<char>) -> Seq<char> {
    if t.len() > 0 && (t[0] == ' ' || t[0] == '\t') {
        t.drop_first()
    } else {
        seq!['\n'] + t
    }
}

/// The unfolding of the given physical lines.
pub open spec fn unfold_pieces(ps: Seq<Seq<char>>) -> Seq<char>
    decreases ps.len(),
{
    if ps.len() == 0 {
        seq![]
    } else if ps.len() == 1 {
        strip_eol(ps[0])
    } else {
        unfold_pieces(ps.drop_last()) + joined(strip_eol(ps.last()))
    }
}

/// RFC 5545 §3.1 unfolding: each line starting with a space or tab is
/// joined to the previous one without that character; line ends become
/// `\n`.
pub open spec fn unfolded(s: Seq<char>) -> Seq<char> {
    unfold_pieces(split_inclusive(s, '\n'))
}

/// Unfolds continuation lines.
pub fn unfold(input: &str) -> (r: String)
    ensures
        r@ == unfolded(input@),
{
    let v = chars_of(input);
    let ps = split_inclusive_chars(&v, '\n');
    let ghost pv = views(ps@);
    let mut out = String::new();
    let mut i: usize = 0;
    while i < ps.len()
        invariant
            i <= ps@.len(),
            pv == views(ps@),
            pv == split_inclusive(input@, '\n'),
            out@ == unfold_pieces(pv.take(i as int)),
        decreases ps.len() - i,
    {
        let p = &ps[i];
        assert(pv[i as int] == p@);
        assert(pv.take(i + 1).drop_last() =~= pv.take(i as int));
        let mut end = p.len();
        if end > 0 && p[end - 1] == '\n' {
            end = end - 1;
        }
        if end > 0 && p[end - 1] == '\r' {
            end = end - 1;
        }
        let ghost t = strip_eol(p@);
        assert(p@.subrange(0, end as int) =~= t);
        if i > 0 && end > 0 && (p[0] == ' ' || p[0] == '\t') {
            let rest = slice_chars(p, 1, end);
            append_chars(&mut out, &rest);
            assert(rest@ =~= t.drop_first());
        } else {
            if i > 0 {
                push_char(&mut out, '\n');
            }
            let whole = slice_chars(p, 0, end);
            append_chars(&mut out, &whole);
            if i == 0 {
                assert(out@ =~= unfold_pieces(pv.take(1)));
            } else {
                assert(out@ =~= unfold_pieces(pv.take(i as int)) + joined(t));
            }
        }
        i = i + 1;
    }
    assert(pv.take(pv.len() as int) =~= pv);
    out
}

/// The content lines of a document: unfolded, split into lines, trailing
/// whitespace trimmed, empty lines dropped.
pub open spec fn content_lines(s: Seq<char>) -> Seq<Seq<char>> {
    filter_map(
        lines(unfolded(s)),
        |l: Seq<char>|
            if trim_end(l).len() > 0 {
                Some(trim_end(l))
            } else {
                None
            },
    )
}

/// The content lines of a document.
pub fn content_lines_of(ics: &str) -> (r: Vec<Vec<char>>)
    ensures
        views(r@) == content_lines(ics@),
{
    let u = unfold(ics);
    let uv = chars_of(u.as_str());
    let ls = lines_of(&uv);
    let ghost lv = views(ls@);
    let ghost f = |l: Seq<char>|
        if trim_end(l).len() > 0 {
            Some(trim_end(l))
        } else {
            None
        };
    let mut out: Vec<Vec<char>> = Vec::new();
    let mut i: usize = 0;
    while i < ls.len()
        invariant
            i <= ls@.len(),
            lv == views(ls@),
            lv == lines(unfolded(ics@)),
            f == (|l: Seq<char>|
                if trim_end(l).len() > 0 {
                    Some(trim_end(l))
                } else {
                    None
                }),
            views(out@) == filter_map(lv.take(i as int), f),
        decreases ls.len() - i,
    {
        proof {
            lemma_filter_map_step(lv, f, i as int);
        }
        assert(lv[i as int] == ls@[i as int]@);
        let t = trim_end_chars(&ls[i]);
        if t.len() > 0 {
            let ghost before = out@;
            let ghost tv = t@;
            out.push(t);
            assert(views(out@) =~= views(before).push(tv));
        }
        i = i + 1;
    }
    proof {
        lemma_take_full(lv);
    }
    out
}

// ----- property lines ------------------------------------------------

/// A parsed property: its parameters (in line order; a later duplicate
/// key wins on lookup) and its value.
#[derive(Debug, Clone, PartialEq, Eq)]
pub struct Property {
    /// Parameters, e.g. `CN=Paul` as `("CN", "Paul")`.
    pub params: Vec<(String, String)>,
    /// The value after the first unquoted `:`.
    pub value: String,
}

/// A property as plain values.
pub struct PropV {
    pub params: Seq<(Seq<char>, Seq<char>)>,
    pub value: Seq<char>,
}

/// A property as plain values.
pub open spec fn prop_view(p: Property) -> PropV {
    PropV { params: p.params@.map_values(|kv: (String, String)| (kv.0@, kv.1@)), value: p.value@ }
}

/// The position of the first `:` at or after `i` outside double quotes,
/// when the scan is inside quotes exactly when `q`.
pub open spec fn colon_from(s: Seq<char>, i: int, q: bool) -> Option<int>
    decreases s.len() - i,
{
    if i < 0 || i >= s.len() {
        None
    } else if s[i] == '"' {
        colon_from(s, i + 1, !q)
    } else if s[i] == ':' && !q {
        Some(i)
    } else {
        colon_from(s, i + 1, q)
    }
}

/// `s` without every leading and trailing `"` (`trim_matches('"')`).
pub open spec fn trim_quotes(s: Seq<char>) -> Seq<char>
    decreases s.len(),
{
    if s.len() > 0 && s[0] == '"' {
        trim_quotes(s.drop_first())
    } else if s.len() > 0 && s.last() == '"' {
        trim_quotes(s.drop_last())
    } else {
        s
    }
}

/// A `KEY=VALUE` parameter: key and value trimmed, quotes removed from
/// the value; none without `=`.
pub open spec fn param_of(part: Seq<char>) -> Option<(Seq<char>, Seq<char>)> {
    match first_index(part, '=') {
        Some(e) => Some((trim(part.take(e)), trim_quotes(trim(part.skip(e + 1))))),
        None => None,
    }
}

/// The parsed form of a property line: its name and its property, or none
/// without an unquoted `:`.
pub open spec fn property_of(line: Seq<char>) -> Option<(Seq<char>, PropV)> {
    match colon_from(line, 0, false) {
        Some(c) => {
            let parts = split_all(line.take(c), ';');
            Some(
                (
                    trim(parts[0]),
                    PropV {
                        params: filter_map(parts.skip(1), |p: Seq<char>| param_of(p)),
                        value: line.skip(c + 1),
                    },
                ),
            )
        },
        None => None,
    }
}

/// Removes every leading and trailing `"`.
fn trim_quotes_chars(v: &[char]) -> (r: Vec<char>)
    ensures
        r@ == trim_quotes(v@),
{
    let mut a: usize = 0;
    let mut b: usize = v.len();
    assert(v@.subrange(0, v@.len() as int) =~= v@);
    while a < b && (v[a] == '"' || v[b - 1] == '"')
        invariant
            a <= b <= v.len(),
            trim_quotes(v@) == trim_quotes(v@.subrange(a as int, b as int)),
        decreases b - a,
    {
        let ghost t = v@.subrange(a as int, b as int);
        if v[a] == '"' {
            assert(t.drop_first() =~= v@.subrange(a + 1, b as int));
            a = a + 1;
        } else {
            assert(t.drop_last() =~= v@.subrange(a as int, b - 1));
            b = b - 1;
        }
    }
    let r = slice_chars(v, a, b);
    assert(trim_quotes(r@) == r@);
    r
}

/// Parses `NAME[;PARAM=VAL]*:VALUE`; none when the line has no `:`
/// outside double quotes.
pub fn parse_property_line(line: &str) -> (r: Option<(String, Property)>)
    ensures
        r matches Some(nv) ==> property_of(line@) == Some((nv.0@, prop_view(nv.1))),
        r is None ==> property_of(line@) is None,
{
    let v = chars_of(line);
    let mut in_quotes = false;
    let mut i: usize = 0;
    let mut colon: Option<usize> = None;
    while i < v.len()
        invariant_except_break
            i <= v.len(),
            v@ == line@,
            colon_from(v@, 0, false) == colon_from(v@, i as int, in_quotes),
            colon is None,
        ensures
            v@ == line@,
            colon matches Some(c) ==> c < v@.len() && colon_from(v@, 0, false) == Some(c as int),
            colon is None ==> colon_from(v@, 0, false) is None,
        decreases v.len() - i,
    {
        let c = v[i];
        if c == '"' {
            in_quotes = !in_quotes;
        } else if c == ':' && !in_quotes {
            colon = Some(i);
            break;
        }
        i = i + 1;
    }
    let c = match colon {
        Some(c) => {
            assert(c < v@.len());
            c
        },
        None => {
            return None;
        },
    };
    let lhs = slice_chars(&v, 0, c);
    let value = string_of(&slice_chars(&v, c + 1, v.len()));
    assert(value@ =~= line@.skip(c + 1));
    let parts = split_all_chars(&lhs, ';');
    let ghost pv = views(parts@);
    proof {
        lemma_split_all_nonempty(lhs@, ';');
    }
    assert(pv[0] == parts@[0]@);
    let name = string_of(&trimmed_chars(&parts[0]));
    let ghost f = |p: Seq<char>| param_of(p);
    let ghost rest = pv.skip(1);
    let mut params: Vec<(String, String)> = Vec::new();
    let mut k: usize = 1;
    while k < parts.len()
        invariant
            1 <= k <= parts@.len(),
            pv == views(parts@),
            rest == pv.skip(1),
            f == (|p: Seq<char>| param_of(p)),
            params@.map_values(|kv: (String, String)| (kv.0@, kv.1@)) == filter_map(
                rest.take(k - 1),
                f,
            ),
        decreases parts.len() - k,
    {
        proof {
            lemma_filter_map_step(rest, f, k - 1);
            assert(rest[k - 1] == parts@[k as int]@);
        }
        let part = &parts[k];
        proof {
            crate::text::lemma_first_index_facts(part@, '=');
        }
        match crate::text::find_char(part, '=') {
            Some(e) => {
                let key = string_of(&trimmed_chars(&slice_chars(part, 0, e)));
                let val = string_of(&trim_quotes_chars(&trimmed_chars(&slice_chars(part, e + 1, part.len()))));
                assert(part@.take(e as int) =~= part@.subrange(0, e as int));
                assert(part@.skip(e + 1) =~= part@.subrange(e + 1, part@.len() as int));
                let ghost before = params@;
                params.push((key, val));
                assert(params@.map_values(|kv: (String, String)| (kv.0@, kv.1@)) =~= before.map_values(
                    |kv: (String, String)| (kv.0@, kv.1@),
                ).push((key@, val@)));
            },
            None => {},
        }
        k = k + 1;
    }
    assert(rest.take(rest.len() as int) =~= rest);
    assert(lhs@ =~= line@.take(c as int));
    Some((name, Property { params, value }))
}

/// A split always yields at least one piece.
pub proof fn lemma_split_all_nonempty(s: Seq<char>, c: char)
    ensures
        split_all(s, c).len() >= 1,
{
}

/// The last value of parameter `key`, if any.
pub open spec fn param_lookup(params: Seq<(Seq<char>, Seq<char>)>, key: Seq<char>) -> Option<Seq<char>>
    decreases params.len(),
{
    if params.len() == 0 {
        None
    } else if params.last().0 == key {
        Some(params.last().1)
    } else {
        param_lookup(params.drop_last(), key)
    }
}

impl Property {
    /// The value of parameter `key` (the last one when repeated).
    pub fn param(&self, key: &str) -> (r: Option<&str>)
        ensures
            r matches Some(v) ==> param_lookup(prop_view(*self).params, key@) == Some(v@),
            r is None ==> param_lookup(prop_view(*self).params, key@) is None,
    {
        let ghost ps = prop_view(*self).params;
        let mut k: usize = self.params.len();
        assert(ps.take(ps.len() as int) =~= ps);
        while k > 0
            invariant
                k <= self.params@.len(),
                ps == prop_view(*self).params,
                param_lookup(ps, key@) == param_lookup(ps.take(k as int), key@),
            decreases k,
        {
            assert(ps.take(k as int).drop_last() =~= ps.take(k - 1));
            assert(ps.take(k as int).last() == (self.params@[k - 1].0@, self.params@[k - 1].1@));
            if crate::text::str_eq(self.params[k - 1].0.as_str(), key) {
                return Some(self.params[k - 1].1.as_str());
            }
            k = k - 1;
        }
        None
    }
}

// ----- TEXT escaping -------------------------------------------------

/// The RFC 5545 §3.3.11 escape of one character: backslash, comma,
/// semicolon and newline are escaped, carriage returns dropped.
pub open spec fn escape_char(c: char) -> Seq<char> {
    if c == '\\' {
        seq!['\\', '\\']
    } else if c == ',' {
        seq!['\\', ',']
    } else if c == ';' {
        seq!['\\', ';']
    } else if c == '\n' {
        seq!['\\', 'n']
    } else if c == '\r' {
        seq![]
    } else {
        seq![c]
    }
}

/// TEXT escaping of a value.
pub open spec fn escaped(s: Seq<char>) -> Seq<char>
    decreases s.len(),
{
    if s.len() == 0 {
        seq![]
    } else {
        escape_char(s[0]) + escaped(s.drop_first())
    }
}

/// TEXT unescaping: `\\`, `\,` and `\;` give the character, `\n` and
/// `\N` a newline; any other escape, and a lone trailing backslash, are
/// kept as written.
pub open spec fn unescaped(s: Seq<char>) -> Seq<char>
    decreases s.len(),
{
    if s.len() == 0 {
        seq![]
    } else if s[0] == '\\' {
        if s.len() == 1 {
            seq!['\\']
        } else {
            let c = s[1];
            (if c == '\\' || c == ',' || c == ';' {
                seq![c]
            } else if c == 'n' || c == 'N' {
                seq!['\n']
            } else {
                seq!['\\', c]
            }) + unescaped(s.skip(2))
        }
    } else {
        seq![s[0]] + unescaped(s.drop_first())
    }
}

/// Escapes a TEXT value.
pub fn escape_text(s: &str) -> (r: String)
    ensures
        r@ == escaped(s@),
{
    let v = chars_of(s);
    let mut out = String::new();
    let mut i: usize = 0;
    assert(v@.skip(0) =~= v@);
    while i < v.len()
        invariant
            i <= v@.len(),
            v@ == s@,
            escaped(s@) == out@ + escaped(v@.skip(i as int)),
        decreases v.len() - i,
    {
        let c = v[i];
        let ghost rest = v@.skip(i as int);
        assert(rest[0] == c);
        assert(rest.drop_first() =~= v@.skip(i + 1));
        let ghost before = out@;
        if c == '\\' {
            push_char(&mut out, '\\');
            push_char(&mut out, '\\');
        } else if c == ',' {
            push_char(&mut out, '\\');
            push_char(&mut out, ',');
        } else if c == ';' {
            push_char(&mut out, '\\');
            push_char(&mut out, ';');
        } else if c == '\n' {
            push_char(&mut out, '\\');
            push_char(&mut out, 'n');
        } else if c == '\r' {
        } else {
            push_char(&mut out, c);
        }
        assert(out@ =~= before + escape_char(c));
        assert(escaped(rest) == escape_char(c) + escaped(v@.skip(i + 1)));
        i = i + 1;
    }
    assert(v@.skip(i as int) =~= seq![]);
    out
}

/// Unescapes a TEXT value.
pub fn unescape_text(s: &str) -> (r: String)
    ensures
        r@ == unescaped(s@),
{
    let v = chars_of(s);
    let mut out = String::new();
    let mut i: usize = 0;
    assert(v@.skip(0) =~= v@);
    while i < v.len()
        invariant
            i <= v@.len(),
            v@ == s@,
            unescaped(s@) == out@ + unescaped(v@.skip(i as int)),
        decreases v.len() - i,
    {
        let ghost rest = v@.skip(i as int);
        assert(rest[0] == v@[i as int]);
        let ghost before = out@;
        if v[i] == '\\' {
            if i + 1 == v.len() {
                push_char(&mut out, '\\');
                assert(rest =~= seq!['\\']);
                assert(v@.skip(i + 1) =~= seq![]);
                i = i + 1;
            } else {
                let c = v[i + 1];
                assert(rest[1] == c);
                if c == '\\' || c == ',' || c == ';' {
                    push_char(&mut out, c);
                } else if c == 'n' || c == 'N' {
                    push_char(&mut out, '\n');
                } else {
                    push_char(&mut out, '\\');
                    push_char(&mut out, c);
                }
                assert(rest.skip(2) =~= v@.skip(i + 2));
                assert(unescaped(s@) =~= out@ + unescaped(v@.skip(i + 2)));
                i = i + 2;
            }
        } else {
            push_char(&mut out, v[i]);
            assert(rest.drop_first() =~= v@.skip(i + 1));
            assert(unescaped(s@) =~= out@ + unescaped(v@.skip(i + 1)));
            i = i + 1;
        }
    }
    assert(v@.skip(i as int) =~= seq![]);
    out
}

/// Unescaping undoes escaping for every value without carriage returns.
pub proof fn law_unescape_inverts_escape(s: Seq<char>)
    requires
        forall|i: int| 0 <= i < s.len() ==> s[i] != '\r',
    ensures
        unescaped(escaped(s)) == s,
    decreases s.len(),
{
    if s.len() > 0 {
        let c = s[0];
        let rest = s.drop_first();
        assert forall|i: int| 0 <= i < rest.len() implies rest[i] != '\r' by {
            assert(rest[i] == s[i + 1]);
        }
        law_unescape_inverts_escape(rest);
        let e = escape_char(c) + escaped(rest);
        assert(escaped(s) == e);
        if c == '\\' || c == ',' || c == ';' || c == '\n' {
            assert(e[0] == '\\');
            assert(e.skip(2) =~= escaped(rest));
        } else {
            assert(e[0] == c);
            assert(e.drop_first() =~= escaped(rest));
        }
        assert(unescaped(e) =~= s);
    }
}

// ----- line folding --------------------------------------------------

/// The UTF-8 length of a character, in bytes.
pub open spec fn utf8_len(c: char) -> nat {
    if (c as u32) < 0x80 {
        1
    } else if (c as u32) < 0x800 {
        2
    } else if (c as u32) < 0x10000 {
        3
    } else {
        4
    }
}

/// The UTF-8 length of a character sequence, in bytes.
pub open spec fn utf8_size(s: Seq<char>) -> nat
    decreases s.len(),
{
    if s.len() == 0 {
        0
    } else {
        utf8_len(s[0]) + utf8_size(s.drop_first())
    }
}

/// How many leading characters fit in `budget` bytes.
pub open spec fn fit(s: Seq<char>, budget: nat) -> nat
    decreases s.len(),
{
    if s.len() == 0 || utf8_len(s[0]) > budget {
        0
    } else {
        1 + fit(s.drop_first(), (budget - utf8_len(s[0])) as nat)
    }
}

/// RFC 5545 §3.1 folding: the line cut into pieces of at most 75 UTF-8
/// bytes, never inside a character, joined by CRLF and a space.
pub open spec fn folded(s: Seq<char>) -> Seq<char>
    decreases s.len(),
{
    let k = fit(s, 75);
    if s.len() == 0 || k == 0 || k >= s.len() {
        s
    } else {
        s.take(k as int) + "\r\n "@ + folded(s.skip(k as int))
    }
}

proof fn lemma_folded_step(t: Seq<char>)
    ensures
        ({
            let k = fit(t, 75);
            if t.len() == 0 || k == 0 || k >= t.len() {
                folded(t) == t
            } else {
                folded(t) == t.take(k as int) + "\r\n "@ + folded(t.skip(k as int))
            }
        }),
{
}

/// The UTF-8 length of a character.
fn utf8_len_exec(c: char) -> (r: usize)
    ensures
        r == utf8_len(c),
{
    let n = c as u32;
    if n < 0x80 {
        1
    } else if n < 0x800 {
        2
    } else if n < 0x10000 {
        3
    } else {
        4
    }
}

proof fn lemma_fit_bound(s: Seq<char>, budget: nat)
    ensures
        fit(s, budget) <= s.len(),
        s.len() > 0 && budget >= 4 ==> fit(s, budget) >= 1,
    decreases s.len(),
{
    if s.len() > 0 && utf8_len(s[0]) <= budget {
        lemma_fit_bound(s.drop_first(), (budget - utf8_len(s[0])) as nat);
    }
}

/// How many characters from `start` on fit in 75 bytes.
fn fit_from(v: &[char], start: usize) -> (k: usize)
    requires
        start <= v.len(),
    ensures
        k == fit(v@.skip(start as int), 75),
        start + k <= v.len(),
{
    let ghost t = v@.skip(start as int);
    let mut k: usize = 0;
    let mut budget: usize = 75;
    proof {
        lemma_fit_bound(t, 75);
        assert(t.skip(0) =~= t);
    }
    while start + k < v.len() && utf8_len_exec(v[start + k]) <= budget
        invariant
            start + k <= v.len(),
            budget <= 75,
            t == v@.skip(start as int),
            fit(t, 75) == k + fit(t.skip(k as int), budget as nat),
        decreases v.len() - start - k,
    {
        let ghost u = t.skip(k as int);
        assert(u[0] == v@[start + k]);
        assert(u.drop_first() =~= t.skip(k + 1));
        budget = budget - utf8_len_exec(v[start + k]);
        k = k + 1;
    }
    proof {
        let u = t.skip(k as int);
        if start + k < v.len() {
            assert(u[0] == v@[start + k]);
        }
    }
    k
}

/// Folds a content line at 75 bytes (without the final CRLF).
pub fn fold_line(line: &str) -> (r: String)
    ensures
        r@ == folded(line@),
{
    let v = chars_of(line);
    let mut out = String::new();
    let mut start: usize = 0;
    assert(v@.skip(0) =~= v@);
    loop
        invariant
            start <= v.len(),
            v@ == line@,
            folded(line@) == out@ + folded(v@.skip(start as int)),
        decreases v.len() - start,
    {
        let ghost t = v@.skip(start as int);
        let k = fit_from(&v, start);
        proof {
            lemma_fit_bound(t, 75);
            lemma_folded_step(t);
        }
        if start == v.len() || k == 0 || start + k >= v.len() {
            let rest = slice_chars(&v, start, v.len());
            append_chars(&mut out, &rest);
            assert(rest@ =~= t);
            return out;
        }
        let piece = slice_chars(&v, start, start + k);
        append_chars(&mut out, &piece);
        out.append("\r\n ");
        assert(piece@ =~= t.take(k as int));
        assert(t.skip(k as int) =~= v@.skip(start + k));
        start = start + k;
    }
}

// ----- folding and unfolding ---------------------------------------------

/// The text the physical lines after the first add to an unfolding.
spec fn joins(qs: Seq<Seq<char>>) -> Seq<char>
    decreases qs.len(),
{
    if qs.len() == 0 {
        seq![]
    } else {
        joins(qs.drop_last()) + joined(strip_eol(qs.last()))
    }
}

proof fn lemma_joins_front(q: Seq<char>, rest: Seq<Seq<char>>)
    ensures
        joins(seq![q] + rest) == joined(strip_eol(q)) + joins(rest),
    decreases rest.len(),
{
    let j = joined(strip_eol(q));
    if rest.len() == 0 {
        assert((seq![q] + rest).drop_last() =~= Seq::<Seq<char>>::empty());
        assert((seq![q] + rest).last() == q);
        assert(joins(seq![q] + rest) == joins(Seq::<Seq<char>>::empty()) + j);
        assert(Seq::<char>::empty() + j =~= j);
        assert(j + Seq::<char>::empty() =~= j);
    } else {
        lemma_joins_front(q, rest.drop_last());
        assert((seq![q] + rest).drop_last() =~= seq![q] + rest.drop_last());
        assert((seq![q] + rest).last() == rest.last());
        let tail = joined(strip_eol(rest.last()));
        assert(joins(seq![q] + rest) == (j + joins(rest.drop_last())) + tail);
        assert(joins(rest) == joins(rest.drop_last()) + tail);
        assert((j + joins(rest.drop_last())) + tail =~= j + (joins(rest.drop_last()) + tail));
    }
}

proof fn lemma_unfold_front(ps: Seq<Seq<char>>)
    requires
        ps.len() >= 1,
    ensures
        unfold_pieces(ps) == strip_eol(ps[0]) + joins(ps.drop_first()),
    decreases ps.len(),
{
    if ps.len() == 1 {
        assert(ps.drop_first().len() == 0);
    } else {
        lemma_unfold_front(ps.drop_last());
        assert(ps.drop_last().drop_first() =~= ps.drop_first().drop_last());
    }
}

/// Splitting after a first line that ends the only `\n` of `x`.
proof fn lemma_split_first_line(x: Seq<char>, y: Seq<char>)
    requires
        x.len() > 0,
        x.last() == '\n',
        forall|i: int| 0 <= i < x.len() - 1 ==> x[i] != '\n',
    ensures
        split_inclusive(x + y, '\n') == seq![x] + split_inclusive(y, '\n'),
{
    let f = x + y;
    crate::text::lemma_first_index(f, '\n', x.len() - 1);
    assert(f.take(x.len() as int) =~= x);
    assert(f.skip(x.len() as int) =~= y);
}

/// A leading space becomes part of the first physical line.
proof fn lemma_split_space(g: Seq<char>)
    requires
        g.len() > 0,
    ensures
        split_inclusive(seq![' '] + g, '\n').len() == split_inclusive(g, '\n').len(),
        split_inclusive(g, '\n').len() > 0,
        split_inclusive(seq![' '] + g, '\n')[0] == seq![' '] + split_inclusive(g, '\n')[0],
        split_inclusive(seq![' '] + g, '\n').drop_first() == split_inclusive(g, '\n').drop_first(),
{
    let h = seq![' '] + g;
    crate::text::lemma_first_index_facts(g, '\n');
    match first_index(g, '\n') {
        Some(i) => {
            assert forall|k: int| 0 <= k < i + 1 implies h[k] != '\n' by {
                if k > 0 {
                    assert(h[k] == g[k - 1]);
                }
            }
            assert(h[i + 1] == g[i]);
            crate::text::lemma_first_index(h, '\n', i + 1);
            assert(h.take(i + 2) =~= seq![' '] + g.take(i + 1));
            assert(h.skip(i + 2) =~= g.skip(i + 1));
        },
        None => {
            assert forall|k: int| 0 <= k < h.len() implies h[k] != '\n' by {
                if k > 0 {
                    assert(h[k] == g[k - 1]);
                }
            }
            crate::text::lemma_first_index(h, '\n', h.len() as int);
        },
    }
}

/// A folded content line with its CRLF unfolds to the line, and its
/// first physical line starts with the line's first character.
#[verifier::rlimit(40)]
proof fn lemma_fold_line_form(s: Seq<char>)
    requires
        forall|i: int| 0 <= i < s.len() ==> s[i] != '\n',
    ensures
        unfolded(folded(s) + "\r\n"@) == s,
        split_inclusive(folded(s) + "\r\n"@, '\n').len() >= 1,
        s.len() > 0 ==> strip_eol(split_inclusive(folded(s) + "\r\n"@, '\n')[0]).len() > 0
            && strip_eol(split_inclusive(folded(s) + "\r\n"@, '\n')[0])[0] == s[0],
    decreases s.len(),
{
    reveal_strlit("\r\n");
    reveal_strlit("\r\n ");
    lemma_fit_bound(s, 75);
    let k = fit(s, 75);
    let b = folded(s) + "\r\n"@;
    if s.len() == 0 || k == 0 || k >= s.len() {
        assert(folded(s) == s);
        assert forall|i: int| 0 <= i < s.len() + 1 implies b[i] != '\n' by {
            if i < s.len() {
                assert(b[i] == s[i]);
            }
        }
        let n: int = s.len() as int;
        assert(b[n + 1] == '\n');
        crate::text::lemma_first_index(b, '\n', n + 1);
        assert(b.take(n + 2) =~= b);
        assert(b.skip(n + 2) =~= Seq::<char>::empty());
        assert(split_inclusive(Seq::<char>::empty(), '\n') =~= Seq::<Seq<char>>::empty());
        assert(first_index(b, '\n') == Some(n + 1));
        assert(split_inclusive(b, '\n') == seq![b.take(n + 2)] + split_inclusive(b.skip(n + 2), '\n'));
        assert(split_inclusive(b, '\n') =~= seq![b]);
        assert(strip_eol(b) =~= s);
    } else {
        let t = s.skip(k as int);
        assert forall|i: int| 0 <= i < t.len() implies t[i] != '\n' by {
            assert(t[i] == s[i + k]);
        }
        lemma_fold_line_form(t);
        let g = folded(t) + "\r\n"@;
        let x = s.take(k as int) + seq!['\r', '\n'];
        assert(folded(s) == s.take(k as int) + "\r\n "@ + folded(t));
        assert(b =~= x + (seq![' '] + g));
        assert forall|i: int| 0 <= i < x.len() - 1 implies x[i] != '\n' by {
            if i < k {
                assert(x[i] == s[i]);
            }
        }
        lemma_split_first_line(x, seq![' '] + g);
        assert(g.len() > 0);
        lemma_split_space(g);
        let ps = split_inclusive(b, '\n');
        let qs = split_inclusive(seq![' '] + g, '\n');
        let gs = split_inclusive(g, '\n');
        lemma_unfold_front(ps);
        assert(ps[0] == x);
        assert(ps.drop_first() =~= qs);
        assert(strip_eol(x) =~= s.take(k as int));
        assert(qs =~= seq![qs[0]] + qs.drop_first());
        lemma_joins_front(qs[0], qs.drop_first());
        lemma_unfold_front(gs);
        assert(strip_eol(qs[0]) =~= seq![' '] + strip_eol(gs[0])) by {
            assert(qs[0] == seq![' '] + gs[0]);
        }
        assert(joined(strip_eol(qs[0])) =~= strip_eol(gs[0]));
        assert(unfolded(g) == strip_eol(gs[0]) + joins(gs.drop_first()));
        assert(s =~= s.take(k as int) + t);
    }
}

/// Splitting after text that ends with a line feed.
proof fn lemma_split_concat(a: Seq<char>, b: Seq<char>)
    requires
        a.len() > 0,
        a.last() == '\n',
    ensures
        split_inclusive(a + b, '\n') == split_inclusive(a, '\n') + split_inclusive(b, '\n'),
    decreases a.len(),
{
    let ab = a + b;
    crate::text::lemma_first_index_facts(a, '\n');
    let i = first_index(a, '\n')->Some_0;
    assert forall|k: int| 0 <= k < i implies ab[k] != '\n' by {
        assert(ab[k] == a[k]);
    }
    assert(ab[i] == a[i]);
    crate::text::lemma_first_index(ab, '\n', i);
    assert(ab.take(i + 1) =~= a.take(i + 1));
    if i + 1 == a.len() {
        assert(ab.skip(i + 1) =~= b);
        assert(a.skip(i + 1) =~= Seq::<char>::empty());
        assert(split_inclusive(a, '\n') =~= seq![a.take(i + 1)] + split_inclusive(a.skip(i + 1), '\n'));
        assert(split_inclusive(a.skip(i + 1), '\n') =~= Seq::<Seq<char>>::empty());
    } else {
        let a2 = a.skip(i + 1);
        assert(a2.last() == a.last());
        lemma_split_concat(a2, b);
        assert(ab.skip(i + 1) =~= a2 + b);
    }
}

proof fn lemma_joins_concat(a: Seq<Seq<char>>, b: Seq<Seq<char>>)
    ensures
        joins(a + b) == joins(a) + joins(b),
    decreases b.len(),
{
    if b.len() == 0 {
        assert(a + b =~= a);
        assert(joins(a) + Seq::<char>::empty() =~= joins(a));
    } else {
        lemma_joins_concat(a, b.drop_last());
        assert((a + b).drop_last() =~= a + b.drop_last());
        assert((a + b).last() == b.last());
        let t = joined(strip_eol(b.last()));
        assert((joins(a) + joins(b.drop_last())) + t =~= joins(a) + (joins(b.drop_last()) + t));
    }
}

/// The content lines of a document written one folded line at a time.
pub open spec fn fold_lines(ls: Seq<Seq<char>>) -> Seq<char>
    decreases ls.len(),
{
    if ls.len() == 0 {
        seq![]
    } else {
        folded(ls[0]) + "\r\n"@ + fold_lines(ls.drop_first())
    }
}

/// Lines joined by line feeds.
pub open spec fn join_lf(ls: Seq<Seq<char>>) -> Seq<char>
    decreases ls.len(),
{
    if ls.len() == 0 {
        seq![]
    } else if ls.len() == 1 {
        ls[0]
    } else {
        ls[0] + seq!['\n'] + join_lf(ls.drop_first())
    }
}

/// A line a document can carry and read back: not empty, no line feed,
/// no leading space or tab (it would continue the line before), no
/// trailing whitespace (the reader trims it).
pub open spec fn plain_content_line(l: Seq<char>) -> bool {
    &&& l.len() > 0
    &&& forall|i: int| 0 <= i < l.len() ==> l[i] != '\n'
    &&& l[0] != ' ' && l[0] != '\t'
    &&& trim_end(l) == l
}

proof fn lemma_unfold_lines(ls: Seq<Seq<char>>)
    requires
        forall|i: int| 0 <= i < ls.len() ==> plain_content_line(#[trigger] ls[i]),
    ensures
        unfolded(fold_lines(ls)) == join_lf(ls),
        ls.len() > 0 ==> split_inclusive(fold_lines(ls), '\n').len() >= 1
            && strip_eol(split_inclusive(fold_lines(ls), '\n')[0]).len() > 0
            && strip_eol(split_inclusive(fold_lines(ls), '\n')[0])[0] == ls[0][0],
    decreases ls.len(),
{
    if ls.len() == 0 {
        assert(split_inclusive(Seq::<char>::empty(), '\n') =~= Seq::<Seq<char>>::empty());
    } else {
        reveal_strlit("\r\n");
        let l = ls[0];
        let rest = ls.drop_first();
        assert(plain_content_line(ls[0]));
        lemma_fold_line_form(l);
        let a = folded(l) + "\r\n"@;
        let r = fold_lines(rest);
        assert(fold_lines(ls) == a + r);
        assert(a.last() == '\n');
        lemma_split_concat(a, r);
        let pa = split_inclusive(a, '\n');
        let q = split_inclusive(r, '\n');
        assert(split_inclusive(fold_lines(ls), '\n') == pa + q);
        assert((pa + q)[0] == pa[0]);
        lemma_unfold_front(pa + q);
        lemma_unfold_front(pa);
        assert((pa + q).drop_first() =~= pa.drop_first() + q);
        lemma_joins_concat(pa.drop_first(), q);
        assert(unfolded(fold_lines(ls)) == unfolded(a) + joins(q));
        if rest.len() == 0 {
            assert(r == Seq::<char>::empty());
            assert(q =~= Seq::<Seq<char>>::empty());
            assert(unfolded(a) + joins(q) =~= l);
        } else {
            assert forall|i: int| 0 <= i < rest.len() implies plain_content_line(#[trigger] rest[i]) by {
                assert(rest[i] == ls[i + 1]);
            }
            lemma_unfold_lines(rest);
            let q0 = q[0];
            assert(q =~= seq![q0] + q.drop_first());
            lemma_joins_front(q0, q.drop_first());
            lemma_unfold_front(q);
            assert(rest[0] == ls[1]);
            assert(plain_content_line(ls[1]));
            assert(joined(strip_eol(q0)) =~= seq!['\n'] + strip_eol(q0));
            assert(join_lf(ls) == l + seq!['\n'] + join_lf(rest));
            assert(unfolded(a) + joins(q) =~= l + seq!['\n'] + unfolded(r));
        }
    }
}

proof fn lemma_trim_end_shorter(s: Seq<char>)
    ensures
        trim_end(s).len() <= s.len(),
    decreases s.len(),
{
    if s.len() > 0 && is_ws(s.last()) {
        lemma_trim_end_shorter(s.drop_last());
    }
}

pub proof fn lemma_lines_from_run(l: Seq<char>, rest: Seq<char>, cur: Seq<char>)
    requires
        forall|i: int| 0 <= i < l.len() ==> l[i] != '\n',
    ensures
        crate::text::lines_from(l + rest, cur) == crate::text::lines_from(rest, cur + l),
    decreases l.len(),
{
    if l.len() > 0 {
        assert((l + rest)[0] == l[0]);
        assert((l + rest).drop_first() =~= l.drop_first() + rest);
        lemma_lines_from_run(l.drop_first(), rest, cur.push(l[0]));
        assert(cur.push(l[0]) + l.drop_first() =~= cur + l);
    } else {
        assert(l + rest =~= rest);
        assert(cur + l =~= cur);
    }
}

proof fn lemma_lines_of_join(ls: Seq<Seq<char>>)
    requires
        forall|i: int| 0 <= i < ls.len() ==> plain_content_line(#[trigger] ls[i]),
    ensures
        lines(join_lf(ls)) == ls,
    decreases ls.len(),
{
    if ls.len() == 0 {
        assert(lines(Seq::<char>::empty()) =~= Seq::<Seq<char>>::empty());
    } else {
        let l = ls[0];
        assert(plain_content_line(ls[0]));
        assert(l.last() != '\r') by {
            if l.last() == '\r' {
                assert(is_ws(l.last()));
                lemma_trim_end_shorter(l.drop_last());
            }
        }
        if ls.len() == 1 {
            lemma_lines_from_run(l, Seq::<char>::empty(), Seq::<char>::empty());
            assert(l + Seq::<char>::empty() =~= l);
            assert(Seq::<char>::empty() + l =~= l);
            assert(ls =~= seq![l]);
        } else {
            let rest = ls.drop_first();
            assert forall|i: int| 0 <= i < rest.len() implies plain_content_line(#[trigger] rest[i]) by {
                assert(rest[i] == ls[i + 1]);
            }
            lemma_lines_of_join(rest);
            let tail = seq!['\n'] + join_lf(rest);
            assert(join_lf(ls) =~= l + tail);
            lemma_lines_from_run(l, tail, Seq::<char>::empty());
            assert(Seq::<char>::empty() + l =~= l);
            assert(tail[0] == '\n');
            assert(tail.drop_first() =~= join_lf(rest));
            assert(crate::text::strip_cr(l) == l);
            assert(ls =~= seq![l] + rest);
        }
    }
}

/// Reading the content lines of a document that was written as folded
/// lines, each ended by CRLF, gives back exactly the lines written.
pub proof fn law_content_lines_of_folded(ls: Seq<Seq<char>>)
    requires
        forall|i: int| 0 <= i < ls.len() ==> plain_content_line(#[trigger] ls[i]),
    ensures
        content_lines(fold_lines(ls)) == ls,
{
    lemma_unfold_lines(ls);
    lemma_lines_of_join(ls);
    lemma_filter_map_keeps(ls);
}

proof fn lemma_filter_map_keeps(ls: Seq<Seq<char>>)
    requires
        forall|i: int| 0 <= i < ls.len() ==> plain_content_line(#[trigger] ls[i]),
    ensures
        filter_map(
            ls,
            |l: Seq<char>|
                if trim_end(l).len() > 0 {
                    Some(trim_end(l))
                } else {
                    None
                },
        ) == ls,
    decreases ls.len(),
{
    if ls.len() > 0 {
        let init = ls.drop_last();
        assert forall|i: int| 0 <= i < init.len() implies plain_content_line(#[trigger] init[i]) by {
            assert(init[i] == ls[i]);
        }
        lemma_filter_map_keeps(init);
        assert(plain_content_line(ls[ls.len() - 1]));
        assert(ls =~= init.push(ls.last()));
    }
}

/// Unfolding a folded line gives the line back, when it holds no line
/// break and does not end with a carriage return.
#[verifier::rlimit(40)]
pub proof fn law_unfold_inverts_fold(s: Seq<char>)
    requires
        forall|i: int| 0 <= i < s.len() ==> s[i] != '\n',
        !(s.len() > 0 && s.last() == '\r'),
    ensures
        unfolded(folded(s)) == s,
    decreases s.len(),
{
    lemma_fit_bound(s, 75);
    let k = fit(s, 75);
    if s.len() == 0 || k == 0 || k >= s.len() {
        assert(folded(s) == s);
        if s.len() > 0 {
            crate::text::lemma_first_index(s, '\n', s.len() as int);
            assert(split_inclusive(s, '\n') == seq![s]);
        } else {
            assert(split_inclusive(s, '\n') == Seq::<Seq<char>>::empty());
        }
    } else {
        let t = s.skip(k as int);
        assert forall|i: int| 0 <= i < t.len() implies t[i] != '\n' by {
            assert(t[i] == s[i + k]);
        }
        assert(t.last() == s.last());
        law_unfold_inverts_fold(t);
        let g = folded(t);
        let x = s.take(k as int) + seq!['\r', '\n'];
        reveal_strlit("\r\n ");
        assert(folded(s) == s.take(k as int) + "\r\n "@ + g);
        assert(folded(s) =~= x + (seq![' '] + g));
        assert forall|i: int| 0 <= i < x.len() - 1 implies x[i] != '\n' by {
            if i < k {
                assert(x[i] == s[i]);
            }
        }
        lemma_split_first_line(x, seq![' '] + g);
        // t is not empty, so neither is its folding.
        assert(g.len() > 0) by {
            lemma_fit_bound(t, 75);
            if g.len() == 0 {
                let kt = fit(t, 75);
                assert(!(t.len() == 0 || kt == 0 || kt >= t.len()));
            }
        }
        lemma_split_space(g);
        let ps = split_inclusive(x + (seq![' '] + g), '\n');
        let qs = split_inclusive(seq![' '] + g, '\n');
        let gs = split_inclusive(g, '\n');
        lemma_unfold_front(ps);
        assert(ps[0] == x);
        assert(ps.drop_first() =~= qs);
        assert(strip_eol(x) =~= s.take(k as int));
        assert(qs =~= seq![qs[0]] + qs.drop_first());
        lemma_joins_front(qs[0], qs.drop_first());
        lemma_unfold_front(gs);
        assert(strip_eol(qs[0]) =~= seq![' '] + strip_eol(gs[0])) by {
            assert(qs[0] == seq![' '] + gs[0]);
        }
        assert(joined(strip_eol(qs[0])) =~= strip_eol(gs[0]));
        assert(unfolded(g) == strip_eol(gs[0]) + joins(gs.drop_first()));
        assert(s =~= s.take(k as int) + t);
    }
}


/// A property name the reader takes back as it is: not empty, without
/// `:`, `;` or `"`, and with no surrounding whitespace.
pub open spec fn simple_name(name: Seq<char>) -> bool {
    &&& name.len() > 0
    &&& forall|i: int|
        0 <= i < name.len() ==> name[i] != ':' && name[i] != ';' && name[i] != '"'
    &&& trim(name) == name
}

pub proof fn lemma_colon_after_name(line: Seq<char>, n: int, i: int)
    requires
        0 <= i <= n < line.len(),
        line[n] == ':',
        forall|j: int| i <= j < n ==> line[j] != ':' && line[j] != '"',
    ensures
        colon_from(line, i, false) == Some(n),
    decreases n - i,
{
    if i < n {
        lemma_colon_after_name(line, n, i + 1);
    }
}

/// A line `name:value` with a simple name reads as that name, no
/// parameters, and the value.
pub proof fn lemma_plain_property(name: Seq<char>, v: Seq<char>)
    requires
        simple_name(name),
    ensures
        property_of(name + ":"@ + v) == Some((name, PropV { params: seq![], value: v })),
{
    reveal_strlit(":");
    let line = name + ":"@ + v;
    let n = name.len() as int;
    assert(line[n] == ':');
    assert forall|j: int| 0 <= j < n implies line[j] != ':' && line[j] != '"' by {
        assert(line[j] == name[j]);
    }
    lemma_colon_after_name(line, n, 0);
    assert(line.take(n) =~= name);
    assert(line.skip(n + 1) =~= v);
    crate::text::lemma_first_index(name, ';', n);
    assert(split_all(name, ';') == seq![name]);
    let parts = split_all(name, ';');
    assert(parts.skip(1) =~= Seq::<Seq<char>>::empty());
    assert(filter_map(parts.skip(1), |p: Seq<char>| param_of(p)) =~= Seq::<(Seq<char>, Seq<char>)>::empty());
}

/// A TEXT property line as the writer makes it reads back as a property
/// of the same name, without parameters, whose value unescapes to the
/// text written (the writer drops carriage returns, so a text holding one
/// does not come back).
pub proof fn law_text_property_reads_back(name: Seq<char>, v: Seq<char>)
    requires
        simple_name(name),
        forall|i: int| 0 <= i < v.len() ==> v[i] != '\r',
    ensures
        property_of(name + ":"@ + escaped(v)) == Some(
            (name, PropV { params: seq![], value: escaped(v) }),
        ),
        unescaped(escaped(v)) == v,
{
    lemma_plain_property(name, escaped(v));
    law_unescape_inverts_escape(v);
}

} // verus!
