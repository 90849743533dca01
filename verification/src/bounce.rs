//! Branded bounce notices: a Postfix `multipart/report` bounce is read
//! (failed recipient, SMTP status and diagnostic, the original subject
//! and sender), a branded HTML and plain alternative is built from it,
//! and the report is re-emitted with the RFC 3464 parts preserved.
use vstd::prelude::*;
use vstd::utf8::encode_utf8;
use crate::templates::document::{EmailDocument, doc_view};
use crate::templates::prebuilt::{BounceReason, bounce, bounce_doc};
use crate::templates::render_html::html_document;
use crate::templates::render_plain::plain_document;
use crate::templates::theme::{Theme, is_plausiden};
use crate::orchestrator::parser::{mime_parses, parses};
use crate::text::{
    append_string,
    ascii_lower_chars, ascii_lower_seq, split_all, split_all_chars, append_chars, chars_of, eq_ignore_case, eq_ignore_case_chars, has_prefix, has_sub, is_ws,
    lines, lines_of, owned, push_char, slice_chars, string_of, trim, trim_start, trim_start_chars,
    trimmed_chars, views,
};

verus! {

// ----- status classes ----------------------------------------------------

/// The kind of failure an SMTP status and diagnostic describe: a `4.`
/// status is temporary; `5.1.1` (in the status or the diagnostic) an
/// unknown user; `5.7` (status) or `5.7.` (diagnostic) a policy
/// rejection; anything else other.
pub open spec fn status_class(status: Seq<char>, diagnostic: Seq<char>) -> BounceReason {
    let t = trim(status);
    if has_prefix(t, "4."@) {
        BounceReason::Temporary
    } else if has_prefix(t, "5.1.1"@) || has_sub(diagnostic, "5.1.1"@) {
        BounceReason::UserUnknown
    } else if has_prefix(t, "5.7"@) || has_sub(diagnostic, "5.7."@) {
        BounceReason::PolicyReject
    } else {
        BounceReason::Other
    }
}

/// Classifies a bounce by its SMTP status and diagnostic.
pub fn classify_status(status: &str, diagnostic: &str) -> (r: BounceReason)
    ensures
        r == status_class(status@, diagnostic@),
{
    let t = trimmed_chars(&chars_of(status));
    if crate::text::starts_with_chars(&t, &chars_of("4.")) {
        return BounceReason::Temporary;
    }
    if crate::text::starts_with_chars(&t, &chars_of("5.1.1")) || crate::text::contains_str(
        diagnostic,
        "5.1.1",
    ) {
        return BounceReason::UserUnknown;
    }
    if crate::text::starts_with_chars(&t, &chars_of("5.7")) || crate::text::contains_str(
        diagnostic,
        "5.7.",
    ) {
        return BounceReason::PolicyReject;
    }
    BounceReason::Other
}

/// `prefix` cut off `s` when `s` starts with it, ignoring ASCII case.
pub open spec fn without_prefix_ci(s: Seq<char>, prefix: Seq<char>) -> Option<Seq<char>> {
    if prefix.len() <= s.len() && eq_ignore_case(s.take(prefix.len() as int), prefix) {
        Some(s.skip(prefix.len() as int))
    } else {
        None
    }
}

/// `str::strip_prefix` ignoring ASCII case. The comparison is made on the
/// first bytes of `s`, as many as `prefix` has, so where `s` has that many
/// they must end on a character boundary.
pub fn strip_prefix_ci(s: &str, prefix: &str) -> (r: Option<String>)
    requires
        encode_utf8(s@).len() >= encode_utf8(prefix@).len() ==> vstd::utf8::is_char_boundary(
            encode_utf8(s@),
            encode_utf8(prefix@).len() as int,
        ),
    ensures
        match r {
            Some(t) => without_prefix_ci(s@, prefix@) == Some(t@),
            None => without_prefix_ci(s@, prefix@) is None,
        },
{
    let v = chars_of(s);
    let p = chars_of(prefix);
    if p.len() <= v.len() && eq_ignore_case_chars(&slice_chars(&v, 0, p.len()), &p) {
        assert(v@.subrange(0, p@.len() as int) =~= v@.take(p@.len() as int));
        let rest = string_of(&slice_chars(&v, p.len(), v.len()));
        assert(rest@ =~= v@.skip(p@.len() as int));
        Some(rest)
    } else {
        assert(v@.subrange(0, p@.len() as int) =~= v@.take(p@.len() as int));
        None
    }
}

// ----- header blocks -----------------------------------------------------

/// The text `String::from_utf8_lossy` makes of `b` (invalid sequences
/// become U+FFFD).
pub uninterp spec fn utf8_lossy(b: Seq<u8>) -> Seq<char>;

/// Calls `String::from_utf8_lossy`. Claims that the result is the named
/// decoding of `b`; which bytes are replaced is not stated.
#[verifier::external_body]
fn lossy_text(b: &[u8]) -> (r: String)
    ensures
        r@ == utf8_lossy(b@),
{
    String::from_utf8_lossy(b).into_owned()
}

/// Whether a line continues the header before it.
pub open spec fn is_continuation(line: Seq<char>) -> bool {
    line.len() > 0 && (line[0] == ' ' || line[0] == '\t')
}

/// A `Name: value` line as (trimmed name, trimmed value).
pub open spec fn header_pair(line: Seq<char>) -> Option<(Seq<char>, Seq<char>)> {
    match crate::text::first_index(line, ':') {
        Some(i) => Some((trim(line.take(i)), trim(line.skip(i + 1)))),
        None => None,
    }
}

/// The headers read so far and the one still open.
pub struct Unfolding {
    pub done: Seq<(Seq<char>, Seq<char>)>,
    pub open: Option<(Seq<char>, Seq<char>)>,
}

/// The finished headers, the open one included.
pub open spec fn closed(u: Unfolding) -> Seq<(Seq<char>, Seq<char>)> {
    match u.open {
        Some(h) => u.done.push(h),
        None => u.done,
    }
}

/// One more line: a blank line closes the open header (and the reading
/// goes on), a continuation joins the open header with one space, any
/// other line closes it and opens its own `Name: value` (none when it has
/// no colon).
pub open spec fn unfold_step(u: Unfolding, line: Seq<char>) -> Unfolding {
    if line.len() == 0 {
        Unfolding { done: closed(u), open: None }
    } else if is_continuation(line) {
        match u.open {
            Some((k, v)) => Unfolding { done: u.done, open: Some((k, v.push(' ') + trim_start(line))) },
            None => u,
        }
    } else {
        Unfolding { done: closed(u), open: header_pair(line) }
    }
}

/// The state after the lines, in order.
pub open spec fn unfold_lines(ls: Seq<Seq<char>>) -> Unfolding
    decreases ls.len(),
{
    if ls.len() == 0 {
        Unfolding { done: seq![], open: None }
    } else {
        unfold_step(unfold_lines(ls.drop_last()), ls.last())
    }
}

/// The first 200 lines (all of them when there are fewer).
pub open spec fn first_lines(ls: Seq<Seq<char>>) -> Seq<Seq<char>> {
    if ls.len() <= 200 {
        ls
    } else {
        ls.take(200)
    }
}

/// The (name, value) headers of a block of header lines, continuations
/// joined, blank lines separating groups, at most 200 lines read.
pub open spec fn header_pairs(body: Seq<u8>) -> Seq<(Seq<char>, Seq<char>)> {
    closed(unfold_lines(first_lines(lines(utf8_lossy(body)))))
}

/// Pairs of strings as plain values.
pub open spec fn pairs_view(v: Seq<(String, String)>) -> Seq<(Seq<char>, Seq<char>)> {
    v.map_values(|p: (String, String)| (p.0@, p.1@))
}

fn close_open(done: &mut Vec<(String, String)>, open: Option<(String, String)>)
    ensures
        pairs_view(final(done)@) == closed(
            Unfolding {
                done: pairs_view(old(done)@),
                open: match open {
                    Some(h) => Some((h.0@, h.1@)),
                    None => None,
                },
            },
        ),
{
    match open {
        Some(h) => {
            let ghost before = pairs_view(done@);
            let ghost hv = (h.0@, h.1@);
            done.push(h);
            assert(pairs_view(done@) =~= before.push(hv));
        },
        None => {},
    }
}

/// Reads the (name, value) headers of a block of header lines: lines that
/// start with a space or tab continue the header before them (joined with
/// one space), blank lines separate groups without ending the reading, and
/// at most 200 lines are read.
pub fn unfold_header_lines(body: &[u8]) -> (r: Vec<(String, String)>)
    ensures
        pairs_view(r@) == header_pairs(body@),
{
    let text = lossy_text(body);
    let all = lines_of(&chars_of(text.as_str()));
    let ghost ls = first_lines(views(all@));
    let n = if all.len() <= 200 {
        all.len()
    } else {
        200
    };
    let mut done: Vec<(String, String)> = Vec::new();
    let mut open: Option<(String, String)> = None;
    let mut i: usize = 0;
    assert(ls.take(0) =~= Seq::<Seq<char>>::empty());
    assert(pairs_view(done@) =~= Seq::<(Seq<char>, Seq<char>)>::empty());
    while i < n
        invariant
            n <= all@.len(),
            n == ls.len(),
            i <= n,
            ls == first_lines(views(all@)),
            forall|k: int| 0 <= k < n ==> #[trigger] ls[k] == all@[k]@,
            unfold_lines(ls.take(i as int)) == (Unfolding {
                done: pairs_view(done@),
                open: match open {
                    Some(h) => Some((h.0@, h.1@)),
                    None => None,
                },
            }),
        decreases n - i,
    {
        assert(ls.take(i + 1).drop_last() =~= ls.take(i as int));
        let line = &all[i];
        assert(ls[i as int] == line@);
        if line.len() == 0 {
            let o = open;
            open = None;
            close_open(&mut done, o);
        } else if line[0] == ' ' || line[0] == '\t' {
            match open {
                Some((k, v)) => {
                    let mut v2 = v;
                    push_char(&mut v2, ' ');
                    let rest = trim_start_chars(line);
                    append_chars(&mut v2, &rest);
                    open = Some((k, v2));
                },
                None => {
                    open = None;
                },
            }
        } else {
            let o = open;
            close_open(&mut done, o);
            open = match crate::text::find_char(line, ':') {
                Some(c) => {
                    proof {
                        crate::text::lemma_first_index_facts(line@, ':');
                    }
                    let name = string_of(&trimmed_chars(&slice_chars(line, 0, c)));
                    let value = string_of(&trimmed_chars(&slice_chars(line, c + 1, line.len())));
                    assert(line@.subrange(0, c as int) =~= line@.take(c as int));
                    assert(line@.subrange(c + 1, line@.len() as int) =~= line@.skip(c + 1));
                    Some((name, value))
                },
                None => None,
            };
        }
        i = i + 1;
    }
    assert(ls.take(n as int) =~= ls);
    close_open(&mut done, open);
    done
}

// ----- the report's parts (mail-parser) ----------------------------------

/// How many parts mail-parser finds in `raw` (0 when it reads none).
pub uninterp spec fn mime_part_count(raw: Seq<u8>) -> nat;

/// How many headers part `p` has, as mail-parser reads `raw`.
pub uninterp spec fn mime_part_header_count(raw: Seq<u8>, p: nat) -> nat;

/// A header value as mail-parser hands it out, as far as the filter reads it.
pub enum HeaderTextV {
    /// A plain text value.
    Text(Seq<char>),
    /// A content type: its type and, when given, its subtype.
    ContentType(Seq<char>, Option<Seq<char>>),
    /// Any other kind of value.
    Other,
}

/// Header `h` of part `p` as (name, value), as mail-parser reads `raw`.
pub uninterp spec fn mime_part_header(raw: Seq<u8>, p: nat, h: nat) -> Option<(Seq<char>, HeaderTextV)>;

/// Where part `p`'s body starts and ends in `raw`, as mail-parser reads it.
pub uninterp spec fn mime_part_span(raw: Seq<u8>, p: nat) -> Option<(nat, nat)>;

/// How many top-level headers `Message::headers_raw` yields for `raw`.
pub uninterp spec fn mime_raw_header_count(raw: Seq<u8>) -> nat;

/// The top-level header at position `i` of `Message::headers_raw`, as
/// (name, raw value).
pub uninterp spec fn mime_raw_header(raw: Seq<u8>, i: nat) -> Option<(Seq<char>, Seq<char>)>;

/// Parses `raw` and takes the length of `Message::parts` (0 when it does
/// not parse). Claims that the result is the named count.
#[verifier::external_body]
fn part_count(raw: &[u8]) -> (r: usize)
    ensures
        r == mime_part_count(raw@),
{
    match mail_parser::MessageParser::default().parse(raw) {
        Some(m) => m.parts.len(),
        None => 0,
    }
}

/// Parses `raw` and takes the number of headers of part `p` (0 when
/// there is no such part). Claims that the result is the named count.
#[verifier::external_body]
fn part_header_count(raw: &[u8], p: usize) -> (r: usize)
    ensures
        r == mime_part_header_count(raw@, p as nat),
{
    match mail_parser::MessageParser::default().parse(raw) {
        Some(m) => match m.parts.get(p) {
            Some(part) => part.headers.len(),
            None => 0,
        },
        None => 0,
    }
}

/// A header value as the filter reads it.
pub enum HeaderText {
    Text(String),
    ContentType(String, Option<String>),
    Other,
}

/// A header value as plain values.
pub open spec fn header_text_view(v: HeaderText) -> HeaderTextV {
    match v {
        HeaderText::Text(t) => HeaderTextV::Text(t@),
        HeaderText::ContentType(c, s) => HeaderTextV::ContentType(
            c@,
            match s {
                Some(x) => Some(x@),
                None => None,
            },
        ),
        HeaderText::Other => HeaderTextV::Other,
    }
}

/// Parses `raw` and takes header `h` of part `p`: its `name()` and its
/// `value()`, keeping the text of `HeaderValue::Text` and the `ctype()` and
/// `subtype()` of `HeaderValue::ContentType`. Claims that the result is the
/// named header.
#[verifier::external_body]
fn part_header(raw: &[u8], p: usize, h: usize) -> (r: Option<(String, HeaderText)>)
    ensures
        match r {
            Some((n, v)) => mime_part_header(raw@, p as nat, h as nat) == Some((n@, header_text_view(v))),
            None => mime_part_header(raw@, p as nat, h as nat) is None,
        },
{
    let m = mail_parser::MessageParser::default().parse(raw)?;
    let hd = m.parts.get(p)?.headers.get(h)?;
    let v = match hd.value() {
        mail_parser::HeaderValue::Text(t) => HeaderText::Text(t.to_string()),
        mail_parser::HeaderValue::ContentType(ct) => HeaderText::ContentType(
            ct.ctype().to_string(),
            ct.subtype().map(|x| x.to_string()),
        ),
        _ => HeaderText::Other,
    };
    Some((hd.name().to_string(), v))
}

/// The text a header value offers: a plain text as it is, a content type
/// as `type/subtype` (an empty subtype when none is given), nothing for
/// other values.
pub open spec fn value_text(v: HeaderTextV) -> Option<Seq<char>> {
    match v {
        HeaderTextV::Text(t) => Some(t),
        HeaderTextV::ContentType(c, s) => Some(
            c + "/"@ + match s {
                Some(x) => x,
                None => seq![],
            },
        ),
        HeaderTextV::Other => None,
    }
}

fn header_value_text(v: HeaderText) -> (r: Option<String>)
    ensures
        match r {
            Some(t) => value_text(header_text_view(v)) == Some(t@),
            None => value_text(header_text_view(v)) is None,
        },
{
    match v {
        HeaderText::Text(t) => Some(t),
        HeaderText::ContentType(c, s) => {
            let mut out = c;
            out.append("/");
            match s {
                Some(x) => append_string(&mut out, &x),
                None => {},
            }
            Some(out)
        },
        HeaderText::Other => None,
    }
}

/// Parses `raw` and takes part `p`'s `raw_body_offset` and
/// `raw_end_offset`. Claims that the result is the named span.
#[verifier::external_body]
fn part_span(raw: &[u8], p: usize) -> (r: Option<(usize, usize)>)
    ensures
        match r {
            Some((a, b)) => mime_part_span(raw@, p as nat) == Some((a as nat, b as nat)),
            None => mime_part_span(raw@, p as nat) is None,
        },
{
    let m = mail_parser::MessageParser::default().parse(raw)?;
    let part = m.parts.get(p)?;
    Some((part.raw_body_offset(), part.raw_end_offset()))
}

/// Parses `raw` and counts what `Message::headers_raw` yields (0 when it
/// does not parse). Claims that the result is the named count.
#[verifier::external_body]
fn raw_header_count(raw: &[u8]) -> (r: usize)
    ensures
        r == mime_raw_header_count(raw@),
{
    match mail_parser::MessageParser::default().parse(raw) {
        Some(m) => m.headers_raw().count(),
        None => 0,
    }
}

/// Parses `raw` and takes item `i` of `Message::headers_raw`. Claims that
/// the result is the named header.
#[verifier::external_body]
fn raw_header(raw: &[u8], i: usize) -> (r: Option<(String, String)>)
    ensures
        match r {
            Some((n, v)) => mime_raw_header(raw@, i as nat) == Some((n@, v@)),
            None => mime_raw_header(raw@, i as nat) is None,
        },
{
    let m = mail_parser::MessageParser::default().parse(raw)?;
    let (n, v) = m.headers_raw().nth(i)?;
    Some((n.to_string(), v.to_string()))
}

/// The content type of part `p`: the first `Content-Type` header (name
/// compared ignoring ASCII case), from position `h` on, that has a value.
pub open spec fn content_type_from(raw: Seq<u8>, p: nat, h: nat) -> Option<Seq<char>>
    decreases mime_part_header_count(raw, p) - h,
{
    if h >= mime_part_header_count(raw, p) {
        None
    } else {
        match mime_part_header(raw, p, h) {
            Some((name, v)) => if value_text(v) is Some && eq_ignore_case(name, "Content-Type"@) {
                value_text(v)
            } else {
                content_type_from(raw, p, h + 1)
            },
            None => content_type_from(raw, p, h + 1),
        }
    }
}

/// The content type of part `p`.
pub open spec fn content_type_of(raw: Seq<u8>, p: nat) -> Option<Seq<char>> {
    content_type_from(raw, p, 0)
}

/// The content type of part `p`.
fn part_content_type(raw: &[u8], p: usize) -> (r: Option<String>)
    ensures
        match r {
            Some(t) => content_type_of(raw@, p as nat) == Some(t@),
            None => content_type_of(raw@, p as nat) is None,
        },
{
    let n = part_header_count(raw, p);
    let mut h: usize = n;
    let mut found: Option<String> = None;
    while h > 0
        invariant
            h <= n,
            n == mime_part_header_count(raw@, p as nat),
            match found {
                Some(t) => content_type_from(raw@, p as nat, h as nat) == Some(t@),
                None => content_type_from(raw@, p as nat, h as nat) is None,
            },
        decreases h,
    {
        h = h - 1;
        match part_header(raw, p, h) {
            Some((name, v)) => match header_value_text(v) {
                Some(t) => {
                    if eq_ignore_case_chars(&chars_of(name.as_str()), &chars_of("Content-Type")) {
                        found = Some(t);
                    }
                },
                None => {},
            },
            None => {},
        }
    }
    found
}

/// The bytes of part `p`'s body (none when its span does not fit `raw`).
pub open spec fn part_body(raw: Seq<u8>, p: nat) -> Seq<u8> {
    match mime_part_span(raw, p) {
        Some((a, b)) => if b <= raw.len() && a <= b {
            raw.subrange(a as int, b as int)
        } else {
            seq![]
        },
        None => seq![],
    }
}

fn part_body_bytes(raw: &[u8], p: usize) -> (r: Vec<u8>)
    ensures
        r@ == part_body(raw@, p as nat),
{
    let mut out: Vec<u8> = Vec::new();
    match part_span(raw, p) {
        Some((a, b)) => {
            if b <= raw.len() && a <= b {
                let mut i: usize = a;
                while i < b
                    invariant
                        a <= i <= b,
                        b <= raw@.len(),
                        out@ == raw@.subrange(a as int, i as int),
                    decreases b - i,
                {
                    out.push(raw[i]);
                    assert(raw@.subrange(a as int, i + 1) =~= raw@.subrange(a as int, i as int).push(
                        raw@[i as int],
                    ));
                    i = i + 1;
                }
            }
        },
        None => {},
    }
    out
}

// ----- what the report says ----------------------------------------------

/// What has been read from the report's parts.
pub struct Findings {
    pub diagnostic: Option<Seq<char>>,
    pub status: Option<Seq<char>>,
    pub failed_recipient: Option<Seq<char>>,
    pub original_subject: Option<Seq<char>>,
    pub original_from: Option<Seq<char>>,
    pub delivery_status: Option<Seq<u8>>,
    pub rfc822: Option<Seq<u8>>,
}

/// Nothing read yet.
pub open spec fn no_findings() -> Findings {
    Findings {
        diagnostic: None,
        status: None,
        failed_recipient: None,
        original_subject: None,
        original_from: None,
        delivery_status: None,
        rfc822: None,
    }
}

/// The second `;`-separated field of a value, when there is one.
pub open spec fn second_field(v: Seq<char>) -> Option<Seq<char>> {
    let parts = split_all(v, ';');
    if parts.len() > 1 {
        Some(parts[1])
    } else {
        None
    }
}

/// One delivery-status header: `Diagnostic-Code`, `Status` and the
/// address of `Final-Recipient` are kept (names ignoring ASCII case).
pub open spec fn status_header(f: Findings, h: (Seq<char>, Seq<char>)) -> Findings {
    if eq_ignore_case(h.0, "Diagnostic-Code"@) {
        Findings { diagnostic: Some(h.1), ..f }
    } else if eq_ignore_case(h.0, "Status"@) {
        Findings { status: Some(h.1), ..f }
    } else if eq_ignore_case(h.0, "Final-Recipient"@) {
        match second_field(h.1) {
            Some(a) => Findings { failed_recipient: Some(trim(a)), ..f },
            None => f,
        }
    } else {
        f
    }
}

/// One header of the returned message: `Subject` and `From` are kept.
pub open spec fn original_header(f: Findings, h: (Seq<char>, Seq<char>)) -> Findings {
    if eq_ignore_case(h.0, "Subject"@) {
        Findings { original_subject: Some(h.1), ..f }
    } else if eq_ignore_case(h.0, "From"@) {
        Findings { original_from: Some(h.1), ..f }
    } else {
        f
    }
}

/// The findings after the delivery-status headers, in order.
pub open spec fn status_headers(f: Findings, hs: Seq<(Seq<char>, Seq<char>)>) -> Findings
    decreases hs.len(),
{
    if hs.len() == 0 {
        f
    } else {
        status_header(status_headers(f, hs.drop_last()), hs.last())
    }
}

/// The findings after the returned message's headers, in order.
pub open spec fn original_headers(f: Findings, hs: Seq<(Seq<char>, Seq<char>)>) -> Findings
    decreases hs.len(),
{
    if hs.len() == 0 {
        f
    } else {
        original_header(original_headers(f, hs.drop_last()), hs.last())
    }
}

/// The findings after part `p`: a delivery-status part is kept and its
/// headers read; a returned message (or its headers) is read, and kept
/// when it is a whole message; other parts are passed over.
pub open spec fn part_findings(raw: Seq<u8>, f: Findings, p: nat) -> Findings {
    let ct = ascii_lower_seq(
        match content_type_of(raw, p) {
            Some(t) => t,
            None => seq![],
        },
    );
    let body = part_body(raw, p);
    if has_sub(ct, "message/delivery-status"@) {
        status_headers(Findings { delivery_status: Some(body), ..f }, header_pairs(body))
    } else if has_sub(ct, "message/rfc822"@) || has_sub(ct, "text/rfc822-headers"@) {
        let kept = if has_sub(ct, "message/rfc822"@) {
            Findings { rfc822: Some(body), ..f }
        } else {
            f
        };
        original_headers(kept, header_pairs(body))
    } else {
        f
    }
}

/// The findings after the first `n` parts.
pub open spec fn parts_findings(raw: Seq<u8>, n: nat) -> Findings
    decreases n,
{
    if n == 0 {
        no_findings()
    } else {
        part_findings(raw, parts_findings(raw, (n - 1) as nat), (n - 1) as nat)
    }
}

/// What a recognized bounce says, with the defaults for what it leaves out.
#[derive(Debug)]
pub struct BounceFacts {
    /// Who gets the notice: the returned message's sender.
    pub to: String,
    pub failed_recipient: String,
    pub reason: BounceReason,
    pub diagnostic: String,
    pub original_subject: String,
    /// The delivery-status part, kept as it was.
    pub delivery_status: Option<Vec<u8>>,
    /// The returned message, kept as it was.
    pub rfc822: Option<Vec<u8>>,
}

/// Bounce facts as plain values.
pub struct FactsV {
    pub to: Seq<char>,
    pub failed_recipient: Seq<char>,
    pub reason: BounceReason,
    pub diagnostic: Seq<char>,
    pub original_subject: Seq<char>,
    pub delivery_status: Option<Seq<u8>>,
    pub rfc822: Option<Seq<u8>>,
}

/// Optional bytes as plain values.
pub open spec fn opt_bytes(o: Option<Vec<u8>>) -> Option<Seq<u8>> {
    match o {
        Some(b) => Some(b@),
        None => None,
    }
}

/// Bounce facts as plain values.
pub open spec fn facts_view(f: BounceFacts) -> FactsV {
    FactsV {
        to: f.to@,
        failed_recipient: f.failed_recipient@,
        reason: f.reason,
        diagnostic: f.diagnostic@,
        original_subject: f.original_subject@,
        delivery_status: opt_bytes(f.delivery_status),
        rfc822: opt_bytes(f.rfc822),
    }
}

/// The value, or `d` when there is none.
pub open spec fn or_default(o: Option<Seq<char>>, d: Seq<char>) -> Seq<char> {
    match o {
        Some(s) => s,
        None => d,
    }
}

/// What `raw` says as a bounce: nothing unless it reads as a message whose
/// top-level content type (ignoring ASCII case) is `multipart/report`.
pub open spec fn bounce_facts_of(raw: Seq<u8>) -> Option<FactsV> {
    if !mime_parses(raw) {
        None
    } else {
        match content_type_of(raw, 0) {
            None => None,
            Some(ct) => if !has_sub(ascii_lower_seq(ct), "multipart/report"@) {
                None
            } else {
                let f = parts_findings(raw, mime_part_count(raw));
                let diagnostic = or_default(f.diagnostic, "(no SMTP diagnostic)"@);
                Some(
                    FactsV {
                        to: or_default(f.original_from, "(unknown)"@),
                        failed_recipient: or_default(f.failed_recipient, "(unknown)"@),
                        reason: status_class(or_default(f.status, seq![]), diagnostic),
                        diagnostic,
                        original_subject: or_default(f.original_subject, "(no subject)"@),
                        delivery_status: f.delivery_status,
                        rfc822: f.rfc822,
                    },
                )
            },
        }
    }
}

struct FindBuf {
    diagnostic: Option<String>,
    status: Option<String>,
    failed_recipient: Option<String>,
    original_subject: Option<String>,
    original_from: Option<String>,
    delivery_status: Option<Vec<u8>>,
    rfc822: Option<Vec<u8>>,
}

spec fn opt_chars(o: Option<String>) -> Option<Seq<char>> {
    match o {
        Some(s) => Some(s@),
        None => None,
    }
}

spec fn buf_findings(b: FindBuf) -> Findings {
    Findings {
        diagnostic: opt_chars(b.diagnostic),
        status: opt_chars(b.status),
        failed_recipient: opt_chars(b.failed_recipient),
        original_subject: opt_chars(b.original_subject),
        original_from: opt_chars(b.original_from),
        delivery_status: opt_bytes(b.delivery_status),
        rfc822: opt_bytes(b.rfc822),
    }
}

fn is_named(name: &String, expected: &str) -> (r: bool)
    ensures
        r == eq_ignore_case(name@, expected@),
{
    eq_ignore_case_chars(&chars_of(name.as_str()), &chars_of(expected))
}

/// Reads the delivery-status headers.
fn read_status_headers(b: &mut FindBuf, hs: &Vec<(String, String)>)
    ensures
        buf_findings(*final(b)) == status_headers(buf_findings(*old(b)), pairs_view(hs@)),
{
    let ghost start = buf_findings(*b);
    let ghost pv = pairs_view(hs@);
    let mut i: usize = 0;
    assert(pv.take(0) =~= Seq::<(Seq<char>, Seq<char>)>::empty());
    while i < hs.len()
        invariant
            i <= hs@.len(),
            pv == pairs_view(hs@),
            buf_findings(*b) == status_headers(start, pv.take(i as int)),
        decreases hs.len() - i,
    {
        assert(pv.take(i + 1).drop_last() =~= pv.take(i as int));
        let (name, value) = &hs[i];
        assert(pv[i as int] == (name@, value@));
        if is_named(name, "Diagnostic-Code") {
            b.diagnostic = Some(value.clone());
        } else if is_named(name, "Status") {
            b.status = Some(value.clone());
        } else if is_named(name, "Final-Recipient") {
            let parts = split_all_chars(&chars_of(value.as_str()), ';');
            if parts.len() > 1 {
                assert(views(parts@)[1] == parts@[1]@);
                b.failed_recipient = Some(string_of(&trimmed_chars(&parts[1])));
            }
        }
        i = i + 1;
    }
    assert(pv.take(pv.len() as int) =~= pv);
}

/// Reads the returned message's headers.
fn read_original_headers(b: &mut FindBuf, hs: &Vec<(String, String)>)
    ensures
        buf_findings(*final(b)) == original_headers(buf_findings(*old(b)), pairs_view(hs@)),
{
    let ghost start = buf_findings(*b);
    let ghost pv = pairs_view(hs@);
    let mut i: usize = 0;
    assert(pv.take(0) =~= Seq::<(Seq<char>, Seq<char>)>::empty());
    while i < hs.len()
        invariant
            i <= hs@.len(),
            pv == pairs_view(hs@),
            buf_findings(*b) == original_headers(start, pv.take(i as int)),
        decreases hs.len() - i,
    {
        assert(pv.take(i + 1).drop_last() =~= pv.take(i as int));
        let (name, value) = &hs[i];
        assert(pv[i as int] == (name@, value@));
        if is_named(name, "Subject") {
            b.original_subject = Some(value.clone());
        } else if is_named(name, "From") {
            b.original_from = Some(value.clone());
        }
        i = i + 1;
    }
    assert(pv.take(pv.len() as int) =~= pv);
}

/// Reads part `p` of the report.
fn read_part(b: &mut FindBuf, raw: &[u8], p: usize)
    ensures
        buf_findings(*final(b)) == part_findings(raw@, buf_findings(*old(b)), p as nat),
{
    let ct = match part_content_type(raw, p) {
        Some(t) => string_of(&ascii_lower_chars(&chars_of(t.as_str()))),
        None => String::new(),
    };
    assert(ct@ =~= ascii_lower_seq(
        match content_type_of(raw@, p as nat) {
            Some(t) => t,
            None => seq![],
        },
    ));
    let body = part_body_bytes(raw, p);
    if crate::text::contains_str(ct.as_str(), "message/delivery-status") {
        let hs = unfold_header_lines(body.as_slice());
        b.delivery_status = Some(body);
        read_status_headers(b, &hs);
    } else if crate::text::contains_str(ct.as_str(), "message/rfc822") || crate::text::contains_str(
        ct.as_str(),
        "text/rfc822-headers",
    ) {
        let hs = unfold_header_lines(body.as_slice());
        if crate::text::contains_str(ct.as_str(), "message/rfc822") {
            b.rfc822 = Some(body);
        }
        read_original_headers(b, &hs);
    }
}

fn or_text(o: Option<String>, d: &str) -> (r: String)
    ensures
        r@ == or_default(opt_chars(o), d@),
{
    match o {
        Some(s) => s,
        None => owned(d),
    }
}

/// Reads a Postfix bounce: `None` unless `raw` parses as a message whose
/// top-level content type is `multipart/report`.
pub fn bounce_facts(raw: &[u8]) -> (r: Option<BounceFacts>)
    ensures
        match r {
            Some(f) => bounce_facts_of(raw@) == Some(facts_view(f)),
            None => bounce_facts_of(raw@) is None,
        },
{
    if !parses(raw) {
        return None;
    }
    let top = match part_content_type(raw, 0) {
        Some(t) => t,
        None => {
            return None;
        },
    };
    if !crate::text::contains_str(
        string_of(&ascii_lower_chars(&chars_of(top.as_str()))).as_str(),
        "multipart/report",
    ) {
        return None;
    }
    let n = part_count(raw);
    let mut b = FindBuf {
        diagnostic: None,
        status: None,
        failed_recipient: None,
        original_subject: None,
        original_from: None,
        delivery_status: None,
        rfc822: None,
    };
    let mut p: usize = 0;
    while p < n
        invariant
            p <= n,
            n == mime_part_count(raw@),
            buf_findings(b) == parts_findings(raw@, p as nat),
        decreases n - p,
    {
        read_part(&mut b, raw, p);
        p = p + 1;
    }
    let diagnostic = or_text(b.diagnostic, "(no SMTP diagnostic)");
    let status = or_text(b.status, "");
    proof {
        reveal_strlit("");
        assert(""@ =~= Seq::<char>::empty());
    }
    let reason = classify_status(status.as_str(), diagnostic.as_str());
    Some(
        BounceFacts {
            to: or_text(b.original_from, "(unknown)"),
            failed_recipient: or_text(b.failed_recipient, "(unknown)"),
            reason,
            diagnostic,
            original_subject: or_text(b.original_subject, "(no subject)"),
            delivery_status: b.delivery_status,
            rfc822: b.rfc822,
        },
    )
}

// ----- the rewritten report ---------------------------------------------

/// `s` without the trailing characters `c`.
pub open spec fn strip_trailing(s: Seq<char>, c: char) -> Seq<char>
    decreases s.len(),
{
    if s.len() > 0 && s.last() == c {
        strip_trailing(s.drop_last(), c)
    } else {
        s
    }
}

/// `s` without its trailing CR and LF characters.
pub open spec fn without_line_end(s: Seq<char>) -> Seq<char>
    decreases s.len(),
{
    if s.len() > 0 && (s.last() == '\r' || s.last() == '\n') {
        without_line_end(s.drop_last())
    } else {
        s
    }
}

/// The headers the rewrite owns, since the body's shape changes.
pub open spec fn replaced_header(n: Seq<char>) -> bool {
    eq_ignore_case(n, "Content-Type"@) || eq_ignore_case(n, "Content-Transfer-Encoding"@)
        || eq_ignore_case(n, "MIME-Version"@)
}

/// An original top-level header as passed through: `Name:value` and LF,
/// nothing for the headers the rewrite owns.
pub open spec fn passed_header(h: Option<(Seq<char>, Seq<char>)>) -> Seq<char> {
    match h {
        Some((n, v)) => {
            let t = trim(strip_trailing(n, ':'));
            if replaced_header(t) {
                seq![]
            } else {
                t + ":"@ + without_line_end(v) + "\n"@
            }
        },
        None => seq![],
    }
}

/// The first `n` original top-level headers as passed through.
pub open spec fn passed_headers(raw: Seq<u8>, n: nat) -> Seq<char>
    decreases n,
{
    if n == 0 {
        seq![]
    } else {
        passed_headers(raw, (n - 1) as nat) + passed_header(mime_raw_header(raw, (n - 1) as nat))
    }
}

/// The new top-level headers and the `multipart/alternative` part with
/// the plain and HTML sides.
pub open spec fn report_head(plain: Seq<char>, html: Seq<char>, alt: Seq<char>, outer: Seq<char>) -> Seq<char> {
    "Content-Type: multipart/report; report-type=delivery-status;\r\n boundary=\""@ + outer
        + "\"\nMIME-Version: 1.0\n\n--"@ + outer
        + "\nContent-Type: multipart/alternative; boundary=\""@ + alt + "\"\n\n--"@ + alt
        + "\nContent-Type: text/plain; charset=\"utf-8\"\nContent-Transfer-Encoding: 8bit\n\n"@ + plain
        + "\n--"@ + alt
        + "\nContent-Type: text/html; charset=\"utf-8\"\nContent-Transfer-Encoding: 8bit\n\n"@ + html
        + "\n--"@ + alt + "--\n"@
}

/// A preserved part: its boundary and content type, its bytes as they
/// were, and an LF unless they end with one.
pub open spec fn preserved_part(outer: Seq<char>, type_lines: Seq<char>, body: Option<Seq<u8>>) -> Seq<u8> {
    match body {
        Some(b) => encode_utf8("--"@ + outer + type_lines) + b + (if b.len() > 0 && b.last() == 10u8 {
            Seq::<u8>::empty()
        } else {
            encode_utf8("\n"@)
        }),
        None => seq![],
    }
}

/// The rewritten report: the passed-through headers, the new headers and
/// alternative part, the preserved delivery-status and returned-message
/// parts, and the closing boundary.
pub open spec fn report_bytes(
    raw: Seq<u8>,
    plain: Seq<char>,
    html: Seq<char>,
    delivery_status: Option<Seq<u8>>,
    rfc822: Option<Seq<u8>>,
    alt: Seq<char>,
    outer: Seq<char>,
) -> Seq<u8> {
    encode_utf8(passed_headers(raw, mime_raw_header_count(raw)) + report_head(plain, html, alt, outer))
        + preserved_part(outer, "\nContent-Type: message/delivery-status\n\n"@, delivery_status)
        + preserved_part(outer, "\nContent-Type: message/rfc822\n\n"@, rfc822) + encode_utf8(
        "--"@ + outer + "--\n"@,
    )
}

fn extend_bytes(out: &mut Vec<u8>, b: &[u8])
    ensures
        final(out)@ == old(out)@ + b@,
{
    let ghost start = out@;
    let mut i: usize = 0;
    while i < b.len()
        invariant
            i <= b@.len(),
            out@ == start + b@.take(i as int),
        decreases b.len() - i,
    {
        out.push(b[i]);
        assert(b@.take(i + 1) =~= b@.take(i as int).push(b@[i as int]));
        i = i + 1;
    }
    assert(b@.take(b@.len() as int) =~= b@);
}

fn push_text(out: &mut Vec<u8>, s: &str)
    ensures
        final(out)@ == old(out)@ + encode_utf8(s@),
{
    extend_bytes(out, s.as_bytes());
}

fn push_preserved(out: &mut Vec<u8>, outer: &str, type_lines: &str, body: Option<&[u8]>)
    ensures
        final(out)@ == old(out)@ + preserved_part(
            outer@,
            type_lines@,
            match body {
                Some(b) => Some(b@),
                None => None,
            },
        ),
{
    match body {
        Some(b) => {
            let ghost start = out@;
            let mut head = owned("--");
            head.append(outer);
            head.append(type_lines);
            push_text(out, head.as_str());
            extend_bytes(out, b);
            if !(b.len() > 0 && b[b.len() - 1] == 10u8) {
                push_text(out, "\n");
            } else {
                assert(out@ =~= out@ + Seq::<u8>::empty());
            }
            assert(out@ =~= start + preserved_part(outer@, type_lines@, Some(b@)));
        },
        None => {
            assert(out@ =~= out@ + Seq::<u8>::empty());
        },
    }
}

/// The passed-through original headers.
fn passed_header_text(raw: &[u8]) -> (r: String)
    ensures
        r@ == passed_headers(raw@, mime_raw_header_count(raw@)),
{
    let n = raw_header_count(raw);
    let mut out = String::new();
    let mut i: usize = 0;
    while i < n
        invariant
            i <= n,
            n == mime_raw_header_count(raw@),
            out@ == passed_headers(raw@, i as nat),
        decreases n - i,
    {
        let ghost before = out@;
        match raw_header(raw, i) {
            Some((name, value)) => {
                let nv = chars_of(name.as_str());
                assert(nv@.take(nv@.len() as int) =~= nv@);
                let mut k = nv.len();
                while k > 0 && nv[k - 1] == ':'
                    invariant
                        k <= nv@.len(),
                        strip_trailing(nv@, ':') == strip_trailing(nv@.take(k as int), ':'),
                    decreases k,
                {
                    assert(nv@.take(k as int).drop_last() =~= nv@.take(k - 1));
                    k = k - 1;
                }
                assert(nv@.take(nv@.len() as int) =~= nv@);
                let t = trimmed_chars(&slice_chars(&nv, 0, k));
                assert(nv@.subrange(0, k as int) =~= nv@.take(k as int));
                let tn = string_of(&t);
                if !(is_named(&tn, "Content-Type") || is_named(&tn, "Content-Transfer-Encoding")
                    || is_named(&tn, "MIME-Version")) {
                    let vv = chars_of(value.as_str());
                    assert(vv@.take(vv@.len() as int) =~= vv@);
                    let mut j = vv.len();
                    while j > 0 && (vv[j - 1] == '\r' || vv[j - 1] == '\n')
                        invariant
                            j <= vv@.len(),
                            without_line_end(vv@) == without_line_end(vv@.take(j as int)),
                        decreases j,
                    {
                        assert(vv@.take(j as int).drop_last() =~= vv@.take(j - 1));
                        j = j - 1;
                    }
                    assert(vv@.take(vv@.len() as int) =~= vv@);
                    crate::text::append_string(&mut out, &tn);
                    out.append(":");
                    append_chars(&mut out, &slice_chars(&vv, 0, j));
                    out.append("\n");
                    assert(vv@.subrange(0, j as int) =~= vv@.take(j as int));
                    assert(without_line_end(vv@.take(j as int)) == vv@.take(j as int));
                    assert(strip_trailing(nv@.take(k as int), ':') == nv@.take(k as int));
                    assert(out@ =~= before + passed_header(Some((name@, value@))));
                } else {
                    assert(strip_trailing(nv@.take(k as int), ':') == nv@.take(k as int));
                    assert(out@ =~= before + passed_header(Some((name@, value@))));
                }
            },
            None => {
                assert(out@ =~= before + passed_header(None));
            },
        }
        i = i + 1;
    }
    out
}

/// The rewritten report for `raw`: the original headers except those the
/// rewrite owns, a `multipart/alternative` part with `plain` and `html`,
/// then the delivery-status and returned-message parts as they were.
pub fn emit_multipart_report(
    raw: &[u8],
    plain: &str,
    html: &str,
    delivery_status: Option<&[u8]>,
    rfc822: Option<&[u8]>,
    alt_boundary: &str,
    outer_boundary: &str,
) -> (r: Vec<u8>)
    ensures
        r@ == report_bytes(
            raw@,
            plain@,
            html@,
            match delivery_status {
                Some(b) => Some(b@),
                None => None,
            },
            match rfc822 {
                Some(b) => Some(b@),
                None => None,
            },
            alt_boundary@,
            outer_boundary@,
        ),
{
    let mut text = passed_header_text(raw);
    let ghost hv = text@;
    text.append("Content-Type: multipart/report; report-type=delivery-status;\r\n boundary=\"");
    text.append(outer_boundary);
    text.append("\"\nMIME-Version: 1.0\n\n--");
    text.append(outer_boundary);
    text.append("\nContent-Type: multipart/alternative; boundary=\"");
    text.append(alt_boundary);
    text.append("\"\n\n--");
    text.append(alt_boundary);
    text.append("\nContent-Type: text/plain; charset=\"utf-8\"\nContent-Transfer-Encoding: 8bit\n\n");
    text.append(plain);
    text.append("\n--");
    text.append(alt_boundary);
    text.append("\nContent-Type: text/html; charset=\"utf-8\"\nContent-Transfer-Encoding: 8bit\n\n");
    text.append(html);
    text.append("\n--");
    text.append(alt_boundary);
    text.append("--\n");
    assert(text@ =~= hv + report_head(plain@, html@, alt_boundary@, outer_boundary@));
    let mut out: Vec<u8> = Vec::new();
    push_text(&mut out, text.as_str());
    assert(out@ =~= encode_utf8(text@));
    push_preserved(&mut out, outer_boundary, "\nContent-Type: message/delivery-status\n\n", delivery_status);
    push_preserved(&mut out, outer_boundary, "\nContent-Type: message/rfc822\n\n", rfc822);
    let mut tail = owned("--");
    tail.append(outer_boundary);
    tail.append("--\n");
    push_text(&mut out, tail.as_str());
    out
}

/// Whether `out` is the report rewritten from `raw` with the notice
/// document `d` rendered under theme `t`.
pub open spec fn rewritten_with(
    raw: Seq<u8>,
    f: FactsV,
    d: EmailDocument,
    t: Theme,
    alt: Seq<char>,
    outer: Seq<char>,
    out: Seq<u8>,
) -> bool {
    &&& doc_view(d) == bounce_doc(f.to, f.failed_recipient, f.reason, f.diagnostic, f.original_subject)
    &&& is_plausiden(t)
    &&& out == report_bytes(
        raw,
        plain_document(d),
        html_document(d, t@),
        f.delivery_status,
        f.rfc822,
        alt,
        outer,
    )
}

/// Whether `r` is the rewrite of `raw`: nothing for what is not a
/// recognized bounce, else the report rewritten with the notice built from
/// what it says.
pub open spec fn rewrite_of(raw: Seq<u8>, alt: Seq<char>, outer: Seq<char>, r: Option<Seq<u8>>) -> bool {
    match bounce_facts_of(raw) {
        None => r is None,
        Some(f) => r is Some && rewritten_from(raw, f, alt, outer, r->Some_0),
    }
}

/// Whether `out` is the report rewritten from `raw` with some rendering of
/// the notice for `f` under the PlausiDen theme.
pub open spec fn rewritten_from(raw: Seq<u8>, f: FactsV, alt: Seq<char>, outer: Seq<char>, out: Seq<u8>) -> bool {
    exists|d: EmailDocument, t: Theme| #[trigger] rewritten_with(raw, f, d, t, alt, outer, out)
}

/// Rewrites a Postfix bounce into a branded one: `None` when `raw` is not
/// a recognized bounce (the caller passes it through unchanged).
pub fn rewrite_bounce(raw: &[u8], alt_boundary: &str, outer_boundary: &str) -> (r: Option<Vec<u8>>)
    ensures
        rewrite_of(
            raw@,
            alt_boundary@,
            outer_boundary@,
            match r {
                Some(o) => Some(o@),
                None => None,
            },
        ),
{
    let facts = match bounce_facts(raw) {
        Some(f) => f,
        None => {
            return None;
        },
    };
    let d = bounce(
        facts.to.as_str(),
        facts.failed_recipient.as_str(),
        facts.reason,
        facts.diagnostic.as_str(),
        facts.original_subject.as_str(),
    );
    let t = Theme::plausiden();
    let html = crate::templates::render_html::render(&d, &t);
    let plain = d.render_plain();
    let ds: Option<&[u8]> = match &facts.delivery_status {
        Some(b) => Some(b.as_slice()),
        None => None,
    };
    let rfc: Option<&[u8]> = match &facts.rfc822 {
        Some(b) => Some(b.as_slice()),
        None => None,
    };
    let out = emit_multipart_report(
        raw,
        plain.as_str(),
        html.as_str(),
        ds,
        rfc,
        alt_boundary,
        outer_boundary,
    );
    proof {
        let f = facts_view(facts);
        assert(bounce_facts_of(raw@) == Some(f));
        assert(rewritten_with(raw@, f, d, t, alt_boundary@, outer_boundary@, out@));
        assert(rewritten_from(raw@, f, alt_boundary@, outer_boundary@, out@));
        assert(rewrite_of(raw@, alt_boundary@, outer_boundary@, Some(out@)));
    }
    Some(out)
}

/// Whether `b` occurs in `out` as a contiguous run of bytes starting at
/// `i`.
pub open spec fn run_at(out: Seq<u8>, b: Seq<u8>, i: int) -> bool {
    0 <= i && i + b.len() <= out.len() && out.subrange(i, i + b.len()) == b
}

/// Whether `b` occurs in `out` as a contiguous run of bytes.
pub open spec fn has_run(out: Seq<u8>, b: Seq<u8>) -> bool {
    exists|i: int| #[trigger] run_at(out, b, i)
}

/// A rewritten bounce carries the original's delivery-status and
/// returned-message parts verbatim, so RFC 3464 readers still find them.
pub proof fn law_report_parts_preserved(raw: Seq<u8>, alt: Seq<char>, outer: Seq<char>, out: Seq<u8>)
    requires
        rewrite_of(raw, alt, outer, Some(out)),
    ensures
        bounce_facts_of(raw) is Some,
        bounce_facts_of(raw)->Some_0.delivery_status matches Some(ds) ==> has_run(out, ds),
        bounce_facts_of(raw)->Some_0.rfc822 matches Some(m) ==> has_run(out, m),
{
    let f = bounce_facts_of(raw)->Some_0;
    let (d, t) = choose|d: EmailDocument, t: Theme| #[trigger] rewritten_with(raw, f, d, t, alt, outer, out);
    let a = encode_utf8(passed_headers(raw, mime_raw_header_count(raw)) + report_head(
        plain_document(d),
        html_document(d, t@),
        alt,
        outer,
    ));
    let p1 = preserved_part(outer, "\nContent-Type: message/delivery-status\n\n"@, f.delivery_status);
    let p2 = preserved_part(outer, "\nContent-Type: message/rfc822\n\n"@, f.rfc822);
    let c = encode_utf8("--"@ + outer + "--\n"@);
    assert(out == a + p1 + p2 + c);
    if let Some(ds) = f.delivery_status {
        let h = encode_utf8("--"@ + outer + "\nContent-Type: message/delivery-status\n\n"@);
        let i: int = (a.len() + h.len()) as int;
        assert(out.subrange(i, i + ds.len()) =~= ds);
        assert(run_at(out, ds, i));
    }
    if let Some(m) = f.rfc822 {
        let h = encode_utf8("--"@ + outer + "\nContent-Type: message/rfc822\n\n"@);
        let i: int = (a.len() + p1.len() + h.len()) as int;
        assert(out.subrange(i, i + m.len()) =~= m);
        assert(run_at(out, m, i));
    }
}

} // verus!
