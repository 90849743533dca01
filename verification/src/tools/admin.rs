//! The administration tool's computations: reading a message's headers
//! for classification, describing actions, the line diff shown before a
//! config file is replaced, and the delivery-log query.
use vstd::prelude::*;
use crate::bounce::{header_pair, is_continuation};
use crate::config::categories::{Action, ActionSpec, action_view};
use crate::seqs::{join, lemma_join_step};
use crate::text::{
    append_chars, append_string, ascii_lower_chars, ascii_lower_seq, chars_of, dec, first_index,
    fmt_u64, has_sub, last_index, lines, lines_of, owned, push_char, slice_chars, str_eq, string_of,
    to_lower, trim, trim_start_chars, trimmed_chars, lower_text, views,
};

verus! {

// ----- message headers ---------------------------------------------------

/// The headers of a message as the classifier reads them: the first
/// `From` and `Subject` (names ignoring ASCII case), every other header in
/// order (repeats kept).
#[derive(Debug, Default)]
pub struct ParsedHeaders {
    pub from: Option<String>,
    pub subject: Option<String>,
    pub other: Vec<(String, String)>,
}

/// Headers as plain values.
pub struct HeadersV {
    pub from: Option<Seq<char>>,
    pub subject: Option<Seq<char>>,
    pub other: Seq<(Seq<char>, Seq<char>)>,
}

/// The text of an optional string.
pub open spec fn opt_text(o: Option<String>) -> Option<Seq<char>> {
    match o {
        Some(s) => Some(s@),
        None => None,
    }
}

/// Pairs of strings as plain values.
pub open spec fn pairs_view(v: Seq<(String, String)>) -> Seq<(Seq<char>, Seq<char>)> {
    v.map_values(|p: (String, String)| (p.0@, p.1@))
}

/// Headers as plain values.
pub open spec fn headers_view(h: ParsedHeaders) -> HeadersV {
    HeadersV { from: opt_text(h.from), subject: opt_text(h.subject), other: pairs_view(h.other@) }
}

/// The headers with one more: the first `From` and the first `Subject`
/// are set aside, anything else is kept in order.
pub open spec fn stash(h: HeadersV, name: Seq<char>, value: Seq<char>) -> HeadersV {
    let l = ascii_lower_seq(name);
    if l == "from"@ && h.from is None {
        HeadersV { from: Some(value), ..h }
    } else if l == "subject"@ && h.subject is None {
        HeadersV { subject: Some(value), ..h }
    } else {
        HeadersV { other: h.other.push((name, value)), ..h }
    }
}

/// Sets a header aside or keeps it.
pub fn stash_header(out: &mut ParsedHeaders, name: String, value: String)
    ensures
        headers_view(*final(out)) == stash(headers_view(*old(out)), name@, value@),
{
    let l = string_of(&ascii_lower_chars(&chars_of(name.as_str())));
    if str_eq(l.as_str(), "from") && out.from.is_none() {
        out.from = Some(value);
    } else if str_eq(l.as_str(), "subject") && out.subject.is_none() {
        out.subject = Some(value);
    } else {
        let ghost before = pairs_view(out.other@);
        let ghost p = (name@, value@);
        out.other.push((name, value));
        assert(pairs_view(out.other@) =~= before.push(p));
    }
}

/// Reading headers: what is set aside or kept, the header still open,
/// and whether the blank line that ends the headers was seen.
pub struct Reading {
    pub headers: HeadersV,
    pub open: Option<(Seq<char>, Seq<char>)>,
    pub ended: bool,
}

/// The headers with the open one closed.
pub open spec fn flushed(h: HeadersV, open: Option<(Seq<char>, Seq<char>)>) -> HeadersV {
    match open {
        Some((k, v)) => stash(h, k, v),
        None => h,
    }
}

/// One more line: after the end nothing changes; a blank line closes the
/// open header and ends the headers; a continuation joins the open header
/// with one space; any other line closes it and opens its own.
pub open spec fn reading_step(r: Reading, line: Seq<char>) -> Reading {
    if r.ended {
        r
    } else if line.len() == 0 {
        Reading { headers: flushed(r.headers, r.open), open: None, ended: true }
    } else if is_continuation(line) {
        match r.open {
            Some((k, v)) => Reading {
                open: Some((k, v.push(' ') + crate::text::trim_start(line))),
                ..r
            },
            None => r,
        }
    } else {
        Reading { headers: flushed(r.headers, r.open), open: header_pair(line), ended: false }
    }
}

/// The reading after the lines, in order.
pub open spec fn reading_of(ls: Seq<Seq<char>>) -> Reading
    decreases ls.len(),
{
    if ls.len() == 0 {
        Reading { headers: HeadersV { from: None, subject: None, other: seq![] }, open: None, ended: false }
    } else {
        reading_step(reading_of(ls.drop_last()), ls.last())
    }
}

/// The headers of an RFC 822 message (up to the first blank line, or all
/// of the text when there is none).
pub open spec fn rfc822_headers(raw: Seq<char>) -> HeadersV {
    let r = reading_of(lines(raw));
    if r.ended {
        r.headers
    } else {
        flushed(r.headers, r.open)
    }
}

fn flush(out: &mut ParsedHeaders, open: Option<(String, String)>)
    ensures
        headers_view(*final(out)) == flushed(
            headers_view(*old(out)),
            match open {
                Some(h) => Some((h.0@, h.1@)),
                None => None,
            },
        ),
{
    match open {
        Some((k, v)) => stash_header(out, k, v),
        None => {},
    }
}

/// Reads the headers of an RFC 822 message: up to the first blank line,
/// continuation lines joined with one space.
pub fn parse_rfc822_headers(raw: &str) -> (r: ParsedHeaders)
    ensures
        headers_view(r) == rfc822_headers(raw@),
{
    let ls = lines_of(&chars_of(raw));
    let ghost lv = views(ls@);
    let mut out = ParsedHeaders { from: None, subject: None, other: Vec::new() };
    let mut open: Option<(String, String)> = None;
    let mut ended = false;
    let mut i: usize = 0;
    assert(lv.take(0) =~= Seq::<Seq<char>>::empty());
    assert(pairs_view(out.other@) =~= Seq::<(Seq<char>, Seq<char>)>::empty());
    while i < ls.len()
        invariant
            i <= ls@.len(),
            lv == views(ls@),
            lv == lines(raw@),
            reading_of(lv.take(i as int)) == (Reading {
                headers: headers_view(out),
                open: match open {
                    Some(h) => Some((h.0@, h.1@)),
                    None => None,
                },
                ended,
            }),
            ended ==> open is None,
        decreases ls.len() - i,
    {
        assert(lv.take(i + 1).drop_last() =~= lv.take(i as int));
        let line = &ls[i];
        assert(lv[i as int] == line@);
        if ended {
        } else if line.len() == 0 {
            let o = open;
            open = None;
            flush(&mut out, o);
            ended = true;
        } else if line[0] == ' ' || line[0] == '\t' {
            match open {
                Some((k, v)) => {
                    let mut v2 = v;
                    push_char(&mut v2, ' ');
                    append_chars(&mut v2, &trim_start_chars(line));
                    open = Some((k, v2));
                },
                None => {
                    open = None;
                },
            }
        } else {
            let o = open;
            flush(&mut out, o);
            open = match crate::text::find_char(line, ':') {
                Some(c) => {
                    proof {
                        crate::text::lemma_first_index_facts(line@, ':');
                    }
                    let name = string_of(&trimmed_chars(&slice_chars(line, 0, c)));
                    let value = string_of(&trimmed_chars(&slice_chars(line, c + 1, line.len())));
                    assert(line@.subrange(0, c as int) =~= line@.take(c as int));
                    assert(line@.subrange(c + 1, line@.len() as int) =~= line@.skip(c + 1));
                    Some((name, value))
                },
                None => None,
            };
        }
        i = i + 1;
    }
    assert(lv.take(lv.len() as int) =~= lv);
    if !ended {
        flush(&mut out, open);
    }
    out
}

/// The address in a `From` value: between the last `<` and the next `>`
/// (trimmed) when there are both, else the whole value trimmed.
pub open spec fn angle_address(raw: Seq<char>) -> Seq<char> {
    let s = trim(raw);
    match last_index(s, '<') {
        Some(st) => match first_index(s.skip(st + 1), '>') {
            Some(e) => trim(s.subrange(st + 1, st + 1 + e)),
            None => s,
        },
        None => s,
    }
}

/// The address in a `From` value.
pub fn extract_address(raw: &str) -> (r: String)
    ensures
        r@ == angle_address(raw@),
{
    let s = trimmed_chars(&chars_of(raw));
    match crate::text::rfind_char(&s, '<') {
        Some(st) => {
            proof {
                crate::text::lemma_last_index_facts(s@, '<');
            }
            let rest = slice_chars(&s, st + 1, s.len());
            assert(rest@ =~= s@.skip(st + 1));
            match crate::text::find_char(&rest, '>') {
                Some(e) => {
                    proof {
                        crate::text::lemma_first_index_facts(rest@, '>');
                    }
                    let inner = slice_chars(&s, st + 1, st + 1 + e);
                    string_of(&trimmed_chars(&inner))
                },
                None => string_of(&s),
            }
        },
        None => string_of(&s),
    }
}

/// What the classifier is given for a message.
#[derive(Debug)]
pub struct ClassifyInput {
    /// The sender's address, lower-cased (empty when there is none).
    pub from_address: String,
    /// The subject (empty when there is none).
    pub subject: String,
    /// Every other header with its name lower-cased, in order.
    pub headers: Vec<(String, String)>,
}

/// What the classifier is given for a message whose raw text is `raw`.
pub open spec fn classify_input_of(raw: Seq<char>) -> (Seq<char>, Seq<char>, Seq<(Seq<char>, Seq<char>)>) {
    let h = rfc822_headers(raw);
    (
        lower_text(
            angle_address(
                match h.from {
                    Some(f) => f,
                    None => seq![],
                },
            ),
        ),
        match h.subject {
            Some(s) => s,
            None => seq![],
        },
        h.other.map_values(|p: (Seq<char>, Seq<char>)| (lower_text(p.0), p.1)),
    )
}

/// Reads a message's headers into what the classifier is given.
pub fn classify_input(raw: &str) -> (r: ClassifyInput)
    ensures
        (r.from_address@, r.subject@, pairs_view(r.headers@)) == classify_input_of(raw@),
{
    let parsed = parse_rfc822_headers(raw);
    let from = match &parsed.from {
        Some(f) => extract_address(f.as_str()),
        None => extract_address(""),
    };
    proof {
        reveal_strlit("");
        assert(""@ =~= Seq::<char>::empty());
    }
    let from_address = to_lower(from.as_str());
    let subject = match &parsed.subject {
        Some(s) => s.clone(),
        None => String::new(),
    };
    let ghost other = pairs_view(parsed.other@);
    let mut headers: Vec<(String, String)> = Vec::new();
    let mut i: usize = 0;
    while i < parsed.other.len()
        invariant
            i <= parsed.other@.len(),
            other == pairs_view(parsed.other@),
            pairs_view(headers@) == other.take(i as int).map_values(
                |p: (Seq<char>, Seq<char>)| (lower_text(p.0), p.1),
            ),
        decreases parsed.other.len() - i,
    {
        let (k, v) = &parsed.other[i];
        let ghost before = pairs_view(headers@);
        let lk = to_lower(k.as_str());
        let vv = v.clone();
        assert(other[i as int] == (k@, v@));
        let ghost pv = (lk@, vv@);
        assert(pv == (lower_text(other[i as int].0), other[i as int].1));
        headers.push((lk, vv));
        assert(pairs_view(headers@) =~= before.push(pv));
        assert(pairs_view(headers@) =~= other.take(i + 1).map_values(
            |p: (Seq<char>, Seq<char>)| (lower_text(p.0), p.1),
        ));
        i = i + 1;
    }
    assert(other.take(other.len() as int) =~= other);
    ClassifyInput { from_address, subject, headers }
}

// ----- actions -------------------------------------------------------------

/// The summaries of actions, in order.
pub open spec fn action_texts(acts: Seq<ActionSpec>) -> Seq<Seq<char>>
    decreases acts,
{
    Seq::new(
        acts.len(),
        |i: int|
            if 0 <= i < acts.len() {
                action_text(acts[i])
            } else {
                seq![]
            },
    )
}

/// A one-line summary of an action: `FileInto(folder)`, `SetFlag(flag)`,
/// `Sequence[a, b, ...]`.
pub open spec fn action_text(a: ActionSpec) -> Seq<char>
    decreases a,
{
    match a {
        ActionSpec::FileInto { folder } => "FileInto("@ + folder + ")"@,
        ActionSpec::SetFlag { flag } => "SetFlag("@ + flag + ")"@,
        ActionSpec::Sequence { actions } => "Sequence["@ + join(action_texts(actions), ", "@) + "]"@,
    }
}

/// A one-line summary of an action.
#[verifier::rlimit(50)]
pub fn action_summary(action: &Action) -> (r: String)
    ensures
        r@ == action_text(action_view(*action)),
    decreases action,
{
    match action {
        Action::FileInto { folder } => {
            let mut s = owned("FileInto(");
            append_string(&mut s, folder);
            s.append(")");
            s
        },
        Action::SetFlag { flag } => {
            let mut s = owned("SetFlag(");
            append_string(&mut s, flag);
            s.append(")");
            s
        },
        Action::Sequence { actions } => {
            let ghost acts = action_view(*action)->Sequence_actions;
            let ghost parts = action_texts(acts);
            let mut inner = String::new();
            let mut i: usize = 0;
            assert(parts.take(0) =~= seq![]);
            while i < actions.len()
                invariant
                    *action == (Action::Sequence { actions: *actions }),
                    acts == action_view(*action)->Sequence_actions,
                    parts == action_texts(acts),
                    acts.len() == actions@.len(),
                    i <= actions@.len(),
                    inner@ == join(parts.take(i as int), ", "@),
                decreases actions.len() - i,
            {
                proof {
                    assert(decreases_to!(*action => (*action)->Sequence_actions));
                    assert(decreases_to!(*action => actions[i as int]));
                    lemma_join_step(parts, ", "@, i as int);
                }
                let t = action_summary(&actions[i]);
                if i > 0 {
                    inner.append(", ");
                }
                append_string(&mut inner, &t);
                i = i + 1;
            }
            assert(parts.take(parts.len() as int) =~= parts);
            let mut s = owned("Sequence[");
            append_string(&mut s, &inner);
            s.append("]");
            s
        },
    }
}

// ----- line diff -----------------------------------------------------------

/// The first position of line `x` in `s`.
pub open spec fn line_pos(s: Seq<Seq<char>>, x: Seq<char>) -> Option<int>
    decreases s.len(),
{
    if s.len() == 0 {
        None
    } else if s[0] == x {
        Some(0)
    } else {
        match line_pos(s.drop_first(), x) {
            Some(p) => Some(p + 1),
            None => None,
        }
    }
}

pub proof fn lemma_line_pos(s: Seq<Seq<char>>, x: Seq<char>)
    ensures
        line_pos(s, x) matches Some(p) ==> 0 <= p < s.len() && s[p] == x,
        s.len() > 0 && s[0] != x ==> line_pos(s, x) != Some(0int),
    decreases s.len(),
{
    if s.len() > 0 && s[0] != x {
        lemma_line_pos(s.drop_first(), x);
    }
}

/// Where old and new lines meet again from old line `k` on: the first old
/// line that occurs among the new lines from `j` on, with the new line it
/// matches; both ends when there is none.
pub open spec fn sync_from(old: Seq<Seq<char>>, new: Seq<Seq<char>>, k: int, j: int) -> (int, int)
    decreases old.len() - k,
{
    if k < 0 || k >= old.len() || j < 0 || j > new.len() {
        (old.len() as int, new.len() as int)
    } else {
        match line_pos(new.skip(j), old[k]) {
            Some(p) => (k, j + p),
            None => sync_from(old, new, k + 1, j),
        }
    }
}

pub proof fn lemma_sync_bounds(old: Seq<Seq<char>>, new: Seq<Seq<char>>, k: int, j: int)
    requires
        0 <= k <= old.len(),
        0 <= j <= new.len(),
    ensures
        k <= sync_from(old, new, k, j).0 <= old.len(),
        j <= sync_from(old, new, k, j).1 <= new.len(),
        k < old.len() && j < new.len() && old[k] != new[j] ==> sync_from(old, new, k, j) != (k, j),
        j == new.len() && k < old.len() ==> sync_from(old, new, k, j).0 == old.len(),
    decreases old.len() - k,
{
    if k < old.len() {
        lemma_line_pos(new.skip(j), old[k]);
        if line_pos(new.skip(j), old[k]) is None {
            lemma_sync_bounds(old, new, k + 1, j);
        }
    }
}

/// Lines of `s` from `a` to `b`, each with `prefix`.
pub open spec fn marked(s: Seq<Seq<char>>, a: int, b: int, prefix: Seq<char>) -> Seq<Seq<char>> {
    s.subrange(a, b).map_values(|l: Seq<char>| prefix + l)
}

/// The diff from old line `i` and new line `j` on: equal lines are
/// passed over; at a difference, the old lines up to the next meeting
/// point are shown removed (`    - `) and the new ones added (`    + `).
pub open spec fn diff_from(old: Seq<Seq<char>>, new: Seq<Seq<char>>, i: int, j: int) -> Seq<Seq<char>>
    decreases (old.len() - i) + (new.len() - j),
{
    if i < 0 || j < 0 || i > old.len() || j > new.len() || (i == old.len() && j == new.len()) {
        seq![]
    } else if i < old.len() && j < new.len() && old[i] == new[j] {
        diff_from(old, new, i + 1, j + 1)
    } else {
        let (ni, nj) = sync_from(old, new, i, j);
        proof {
            lemma_sync_bounds(old, new, i, j);
        }
        marked(old, i, ni, "    - "@) + marked(new, j, nj, "    + "@) + diff_from(old, new, ni, nj)
    }
}

/// The diff shown before a config file is replaced: its lines, each
/// removed line as `    - line`, each added one as `    + line`.
pub open spec fn line_diff(old: Seq<char>, new: Seq<char>) -> Seq<Seq<char>> {
    diff_from(lines(old), lines(new), 0, 0)
}

fn line_position(s: &Vec<Vec<char>>, from: usize, x: &Vec<char>) -> (r: Option<usize>)
    requires
        from <= s@.len(),
    ensures
        match line_pos(views(s@).skip(from as int), x@) {
            Some(p) => r == Some((from + p) as usize),
            None => r is None,
        },
{
    let ghost v = views(s@);
    let mut k: usize = from;
    assert(v.skip(from as int) =~= v.skip(k as int));
    while k < s.len()
        invariant
            from <= k <= s@.len(),
            v == views(s@),
            line_pos(v.skip(from as int), x@) == match line_pos(v.skip(k as int), x@) {
                Some(p) => Some(p + (k - from)),
                None => None,
            },
        decreases s.len() - k,
    {
        assert(v.skip(k as int)[0] == s@[k as int]@);
        assert(v.skip(k as int).drop_first() =~= v.skip(k + 1));
        if crate::text::chars_eq(&s[k], x) {
            return Some(k);
        }
        k = k + 1;
    }
    None
}

fn push_marked(out: &mut Vec<String>, s: &Vec<Vec<char>>, a: usize, b: usize, prefix: &str)
    requires
        a <= b <= s@.len(),
    ensures
        final(out)@.map_values(|t: String| t@) == old(out)@.map_values(|t: String| t@) + marked(
            views(s@),
            a as int,
            b as int,
            prefix@,
        ),
{
    let ghost start = out@.map_values(|t: String| t@);
    let mut k: usize = a;
    while k < b
        invariant
            a <= k <= b,
            b <= s@.len(),
            out@.map_values(|t: String| t@) == start + marked(views(s@), a as int, k as int, prefix@),
        decreases b - k,
    {
        let ghost before = out@;
        let mut line = owned(prefix);
        append_chars(&mut line, &s[k]);
        let ghost lv = line@;
        out.push(line);
        proof {
            let v = views(s@);
            assert(v[k as int] == s@[k as int]@);
            assert(lv == prefix@ + v[k as int]);
            assert(out@.map_values(|t: String| t@) =~= before.map_values(|t: String| t@).push(lv));
            assert(v.subrange(a as int, k + 1) =~= v.subrange(a as int, k as int).push(v[k as int]));
            assert(marked(v, a as int, k + 1, prefix@) =~= marked(v, a as int, k as int, prefix@).push(
                prefix@ + v[k as int],
            ));
        }
        k = k + 1;
    }
}

/// The line diff shown before a config file is replaced.
pub fn unified_diff(old: &str, new: &str) -> (r: Vec<String>)
    ensures
        r@.map_values(|t: String| t@) == line_diff(old@, new@),
{
    let ol = lines_of(&chars_of(old));
    let nl = lines_of(&chars_of(new));
    let ghost ov = views(ol@);
    let ghost nv = views(nl@);
    let mut out: Vec<String> = Vec::new();
    let mut i: usize = 0;
    let mut j: usize = 0;
    assert(out@.map_values(|t: String| t@) =~= Seq::<Seq<char>>::empty());
    while i < ol.len() || j < nl.len()
        invariant
            i <= ol@.len(),
            j <= nl@.len(),
            ov == views(ol@),
            nv == views(nl@),
            ov == lines(old@),
            nv == lines(new@),
            diff_from(ov, nv, 0, 0) == out@.map_values(|t: String| t@) + diff_from(
                ov,
                nv,
                i as int,
                j as int,
            ),
        decreases (ol.len() - i) + (nl.len() - j),
    {
        if i < ol.len() && j < nl.len() && crate::text::chars_eq(&ol[i], &nl[j]) {
            assert(ov[i as int] == nv[j as int]);
            i = i + 1;
            j = j + 1;
        } else {
            proof {
                if i < ol.len() && j < nl.len() {
                    assert(ov[i as int] == ol@[i as int]@);
                    assert(nv[j as int] == nl@[j as int]@);
                }
                lemma_sync_bounds(ov, nv, i as int, j as int);
            }
            let mut ni = ol.len();
            let mut nj = nl.len();
            let mut found = false;
            let mut k: usize = i;
            while k < ol.len() && !found
                invariant
                    i <= k <= ol@.len(),
                    j <= nl@.len(),
                    ov == views(ol@),
                    nv == views(nl@),
                    !found ==> sync_from(ov, nv, i as int, j as int) == sync_from(ov, nv, k as int, j as int),
                    !found ==> ni == ol@.len() && nj == nl@.len(),
                    found ==> sync_from(ov, nv, i as int, j as int) == (ni as int, nj as int),
                decreases ol.len() - k + (if found { 0int } else { 1int }),
            {
                assert(ov[k as int] == ol@[k as int]@);
                match line_position(&nl, j, &ol[k]) {
                    Some(p) => {
                        proof {
                            lemma_line_pos(nv.skip(j as int), ov[k as int]);
                            let p0 = line_pos(nv.skip(j as int), ov[k as int])->Some_0;
                            assert(p == j + p0);
                            assert(sync_from(ov, nv, k as int, j as int) == (k as int, j + p0));
                        }
                        ni = k;
                        nj = p;
                        found = true;
                    },
                    None => {
                        k = k + 1;
                    },
                }
            }
            assert(sync_from(ov, nv, i as int, j as int) == (ni as int, nj as int));
            let ghost before = out@.map_values(|t: String| t@);
            push_marked(&mut out, &ol, i, ni, "    - ");
            push_marked(&mut out, &nl, j, nj, "    + ");
            assert(out@.map_values(|t: String| t@) + diff_from(ov, nv, ni as int, nj as int) =~= before
                + diff_from(ov, nv, i as int, j as int));
            i = ni;
            j = nj;
        }
    }
    assert(out@.map_values(|t: String| t@) + diff_from(ov, nv, i as int, j as int) =~= out@.map_values(
        |t: String| t@,
    ));
    out
}

// ----- delivery log and queue ---------------------------------------------

/// `s` with every `'` doubled (an SQL string literal's body).
pub open spec fn sql_quoted(s: Seq<char>) -> Seq<char>
    decreases s.len(),
{
    if s.len() == 0 {
        s
    } else {
        sql_quoted(s.drop_last()) + (if s.last() == '\'' {
            seq!['\'', '\'']
        } else {
            seq![s.last()]
        })
    }
}

/// The delivery-log query: the newest `limit` entries, of one mailbox
/// when one is named.
pub open spec fn log_query_text(limit: nat, mailbox: Option<Seq<char>>) -> Seq<char> {
    match mailbox {
        Some(mb) => "SELECT created_at, direction, from_addr, to_addr, subject, mailbox, status FROM email_log WHERE mailbox = '"@
            + sql_quoted(mb) + "' ORDER BY created_at DESC LIMIT "@ + dec(limit),
        None => "SELECT created_at, direction, from_addr, to_addr, subject, mailbox, status FROM email_log ORDER BY created_at DESC LIMIT "@
            + dec(limit),
    }
}

/// The delivery-log query.
pub fn log_query(limit: usize, mailbox: Option<&str>) -> (r: String)
    ensures
        r@ == log_query_text(
            limit as nat,
            match mailbox {
                Some(m) => Some(m@),
                None => None,
            },
        ),
{
    match mailbox {
        Some(mb) => {
            let mut q = owned(
                "SELECT created_at, direction, from_addr, to_addr, subject, mailbox, status FROM email_log WHERE mailbox = '",
            );
            let ghost head = q@;
            let v = chars_of(mb);
            let mut i: usize = 0;
            assert(v@.take(0) =~= Seq::<char>::empty());
            while i < v.len()
                invariant
                    i <= v@.len(),
                    q@ == head + sql_quoted(v@.take(i as int)),
                decreases v.len() - i,
            {
                assert(v@.take(i + 1).drop_last() =~= v@.take(i as int));
                let ghost before = q@;
                if v[i] == '\'' {
                    push_char(&mut q, '\'');
                    push_char(&mut q, '\'');
                    assert(q@ =~= before + seq!['\'', '\'']);
                } else {
                    push_char(&mut q, v[i]);
                    assert(q@ =~= before + seq![v@[i as int]]);
                }
                i = i + 1;
            }
            assert(v@.take(v@.len() as int) =~= v@);
            q.append("' ORDER BY created_at DESC LIMIT ");
            append_string(&mut q, &fmt_u64(limit as u64));
            q
        },
        None => {
            let mut q = owned(
                "SELECT created_at, direction, from_addr, to_addr, subject, mailbox, status FROM email_log ORDER BY created_at DESC LIMIT ",
            );
            append_string(&mut q, &fmt_u64(limit as u64));
            q
        },
    }
}

/// The mail-queue line of the health check: `EMPTY` when `postqueue -p`
/// says so, else the number of messages (its lines but the first).
pub open spec fn queue_text(out: Seq<char>) -> Seq<char> {
    if has_sub(out, "Mail queue is empty"@) {
        "EMPTY"@
    } else {
        dec(
            if lines(out).len() > 0 {
                (lines(out).len() - 1) as nat
            } else {
                0
            },
        ) + " message(s)"@
    }
}

/// The mail-queue line of the health check.
pub fn queue_summary(postqueue_out: &str) -> (r: String)
    ensures
        r@ == queue_text(postqueue_out@),
{
    if crate::text::contains_str(postqueue_out, "Mail queue is empty") {
        return owned("EMPTY");
    }
    let n = lines_of(&chars_of(postqueue_out)).len();
    let shown: usize = if n > 0 {
        n - 1
    } else {
        0
    };
    let mut s = fmt_u64(shown as u64);
    s.append(" message(s)");
    s
}

// ----- writing a rendered config -----------------------------------------

/// What emitting a rendered config file does.
#[derive(Debug, Clone, Copy, PartialEq, Eq, Structural)]
pub enum EmitStep {
    /// Print it; touch nothing.
    Print,
    /// The live file already holds it.
    Current,
    /// It differs (or is missing) and `--force` was not given: show the
    /// difference and refuse.
    Refuse,
    /// It differs (or is missing): show the difference and write it.
    Write,
}

/// What emitting a rendered config file does, given the live file's
/// content (none when it is missing).
pub open spec fn emit_step_of(existing: Option<Seq<char>>, rendered: Seq<char>, stdout_only: bool, force: bool) -> EmitStep {
    if stdout_only {
        EmitStep::Print
    } else if existing == Some(rendered) {
        EmitStep::Current
    } else if !force {
        EmitStep::Refuse
    } else {
        EmitStep::Write
    }
}

/// What emitting a rendered config file does.
pub fn emit_step(existing: Option<&str>, rendered: &str, stdout_only: bool, force: bool) -> (r: EmitStep)
    ensures
        r == emit_step_of(
            match existing {
                Some(e) => Some(e@),
                None => None,
            },
            rendered@,
            stdout_only,
            force,
        ),
{
    if stdout_only {
        return EmitStep::Print;
    }
    match existing {
        Some(e) => {
            if str_eq(e, rendered) {
                return EmitStep::Current;
            }
        },
        None => {},
    }
    if !force {
        EmitStep::Refuse
    } else {
        EmitStep::Write
    }
}

/// The preview of a file about to be created: its first 40 lines, each as
/// `    + line`.
pub open spec fn creation_preview_of(rendered: Seq<char>) -> Seq<Seq<char>> {
    let ls = lines(rendered);
    marked(ls, 0, if ls.len() <= 40 { ls.len() as int } else { 40 }, "    + "@)
}

/// The preview of a file about to be created.
pub fn creation_preview(rendered: &str) -> (r: Vec<String>)
    ensures
        r@.map_values(|t: String| t@) == creation_preview_of(rendered@),
{
    let ls = lines_of(&chars_of(rendered));
    let n = if ls.len() <= 40 {
        ls.len()
    } else {
        40
    };
    let mut out: Vec<String> = Vec::new();
    assert(out@.map_values(|t: String| t@) =~= Seq::<Seq<char>>::empty());
    push_marked(&mut out, &ls, 0, n, "    + ");
    out
}

} // verus!
