//! What the orchestrator reads from a delivered RFC 5322 message: its
//! id, sender, first recipient, subject, date, text body with a short
//! preview, and attachment names.
use vstd::prelude::*;
use crate::text::{append_string, chars_of, first_index, owned, slice_chars, string_of, trim, trimmed};

verus! {

// ----- mail-parser -----------------------------------------------------

/// Whether `MessageParser::default().parse` reads a message from `raw`.
pub uninterp spec fn mime_parses(raw: Seq<u8>) -> bool;

/// The message's `Message-ID`, as mail-parser reads it.
pub uninterp spec fn mime_message_id(raw: Seq<u8>) -> Option<Seq<char>>;

/// The first `From` address as (display name, address), as mail-parser
/// reads it.
pub uninterp spec fn mime_first_from(raw: Seq<u8>) -> Option<(Option<Seq<char>>, Option<Seq<char>>)>;

/// The address of the first `To` recipient, as mail-parser reads it.
pub uninterp spec fn mime_first_to(raw: Seq<u8>) -> Option<Seq<char>>;

/// The decoded `Subject`, as mail-parser reads it.
pub uninterp spec fn mime_subject(raw: Seq<u8>) -> Option<Seq<char>>;

/// The `Date` in RFC 3339 form, as mail-parser reads and formats it.
pub uninterp spec fn mime_date(raw: Seq<u8>) -> Option<Seq<char>>;

/// The first text body, as mail-parser decodes it.
pub uninterp spec fn mime_body_text(raw: Seq<u8>) -> Option<Seq<char>>;

/// How many attachments mail-parser finds.
pub uninterp spec fn mime_attachment_count(raw: Seq<u8>) -> nat;

/// The attachment at position `i` (when mail-parser has one there) with
/// its file name (when it has one).
pub uninterp spec fn mime_attachment_name(raw: Seq<u8>, i: nat) -> Option<Option<Seq<char>>>;

/// The text of an optional string.
pub open spec fn opt_text(r: Option<String>) -> Option<Seq<char>> {
    match r {
        Some(s) => Some(s@),
        None => None,
    }
}

/// The text of an optional (name, address) pair.
pub open spec fn opt_pair_text(r: Option<(Option<String>, Option<String>)>) -> Option<
    (Option<Seq<char>>, Option<Seq<char>>),
> {
    match r {
        Some((n, a)) => Some((opt_text(n), opt_text(a))),
        None => None,
    }
}

/// Calls `mail_parser::MessageParser::default().parse(raw)`. Claims only
/// that whether it reads a message is the named fact about `raw`.
#[verifier::external_body]
pub(crate) fn parses(raw: &[u8]) -> (r: bool)
    ensures
        r == mime_parses(raw@),
{
    mail_parser::MessageParser::default().parse(raw).is_some()
}

/// Parses `raw` and calls `Message::message_id`. Claims that the result
/// is the named reading of `raw`.
#[verifier::external_body]
fn message_id_of(raw: &[u8]) -> (r: Option<String>)
    ensures
        opt_text(r) == mime_message_id(raw@),
{
    match mail_parser::MessageParser::default().parse(raw) {
        Some(m) => m.message_id().map(|s| s.to_string()),
        None => None,
    }
}

/// Parses `raw`, calls `Message::from` and `Address::first`, and takes the
/// first address's `name` and `address`. Claims that the result is the
/// named reading of `raw`.
#[verifier::external_body]
fn first_from_of(raw: &[u8]) -> (r: Option<(Option<String>, Option<String>)>)
    ensures
        opt_pair_text(r) == mime_first_from(raw@),
{
    let m = mail_parser::MessageParser::default().parse(raw)?;
    let a = m.from()?.first()?;
    Some((a.name().map(|s| s.to_string()), a.address().map(|s| s.to_string())))
}

/// Parses `raw`, calls `Message::to` and `Address::first`, and takes the
/// first recipient's `address`. Claims that the result is the named
/// reading of `raw`.
#[verifier::external_body]
fn first_to_of(raw: &[u8]) -> (r: Option<String>)
    ensures
        opt_text(r) == mime_first_to(raw@),
{
    let m = mail_parser::MessageParser::default().parse(raw)?;
    m.to()?.first()?.address().map(|s| s.to_string())
}

/// Parses `raw` and calls `Message::subject`. Claims that the result is the
/// named reading of `raw`.
#[verifier::external_body]
fn subject_of(raw: &[u8]) -> (r: Option<String>)
    ensures
        opt_text(r) == mime_subject(raw@),
{
    let m = mail_parser::MessageParser::default().parse(raw)?;
    m.subject().map(|s| s.to_string())
}

/// Parses `raw`, calls `Message::date` and formats it with
/// `DateTime::to_rfc3339`. Claims that the result is the named reading of
/// `raw`.
#[verifier::external_body]
fn date_of(raw: &[u8]) -> (r: Option<String>)
    ensures
        opt_text(r) == mime_date(raw@),
{
    let m = mail_parser::MessageParser::default().parse(raw)?;
    m.date().map(|d| d.to_rfc3339())
}

/// Parses `raw` and calls `Message::body_text(0)`. Claims that the result
/// is the named reading of `raw`.
#[verifier::external_body]
fn body_text_of(raw: &[u8]) -> (r: Option<String>)
    ensures
        opt_text(r) == mime_body_text(raw@),
{
    let m = mail_parser::MessageParser::default().parse(raw)?;
    m.body_text(0).map(|s| s.to_string())
}

/// Parses `raw` and calls `Message::attachment_count` (0 when it does not
/// parse). Claims that the result is the named reading of `raw`.
#[verifier::external_body]
fn attachment_count_of(raw: &[u8]) -> (r: usize)
    ensures
        r == mime_attachment_count(raw@),
{
    match mail_parser::MessageParser::default().parse(raw) {
        Some(m) => m.attachment_count(),
        None => 0,
    }
}

/// Parses `raw`, calls `Message::attachment(i)` and the part's
/// `MimeHeaders::attachment_name`. Claims that the result is the named
/// reading of `raw` at `i`.
#[verifier::external_body]
fn attachment_name_of(raw: &[u8], i: usize) -> (r: Option<Option<String>>)
    ensures
        match r {
            Some(n) => mime_attachment_name(raw@, i as nat) == Some(opt_text(n)),
            None => mime_attachment_name(raw@, i as nat) is None,
        },
{
    let m = mail_parser::MessageParser::default().parse(raw)?;
    let part = m.attachment(i)?;
    Some(mail_parser::MimeHeaders::attachment_name(part).map(|s| s.to_string()))
}

// ----- the message -----------------------------------------------------

/// A delivered message, with the fields the orchestrator uses.
#[derive(Debug, Clone)]
pub struct ParsedEmail {
    pub message_id: String,
    pub from: String,
    pub to: String,
    pub subject: String,
    pub date: String,
    pub body_text: String,
    pub body_preview: String,
    pub has_attachments: bool,
    pub attachment_names: Vec<String>,
    pub raw_path: String,
}

/// A message as plain values.
pub struct EmailV {
    pub message_id: Seq<char>,
    pub from: Seq<char>,
    pub to: Seq<char>,
    pub subject: Seq<char>,
    pub date: Seq<char>,
    pub body_text: Seq<char>,
    pub body_preview: Seq<char>,
    pub has_attachments: bool,
    pub attachment_names: Seq<Seq<char>>,
    pub raw_path: Seq<char>,
}

/// A message as plain values.
pub open spec fn email_view(e: ParsedEmail) -> EmailV {
    EmailV {
        message_id: e.message_id@,
        from: e.from@,
        to: e.to@,
        subject: e.subject@,
        date: e.date@,
        body_text: e.body_text@,
        body_preview: e.body_preview@,
        has_attachments: e.has_attachments,
        attachment_names: e.attachment_names@.map_values(|s: String| s@),
        raw_path: e.raw_path@,
    }
}

/// The value, or `d` when there is none.
pub open spec fn or_else(o: Option<Seq<char>>, d: Seq<char>) -> Seq<char> {
    match o {
        Some(s) => s,
        None => d,
    }
}

/// The sender as shown: `Name <address>` when the first address has a
/// display name, the bare address otherwise, empty when there is none.
pub open spec fn sender_text(f: Option<(Option<Seq<char>>, Option<Seq<char>>)>) -> Seq<char> {
    match f {
        Some((Some(n), a)) => n + " <"@ + or_else(a, seq![]) + ">"@,
        Some((None, a)) => or_else(a, seq![]),
        None => seq![],
    }
}

/// The first 200 characters of the text body.
pub open spec fn preview_of(body: Seq<char>) -> Seq<char> {
    if body.len() <= 200 {
        body
    } else {
        body.take(200)
    }
}

/// The attachment names among the first `n` positions, `unnamed` for an
/// attachment without one.
pub open spec fn attachment_names(raw: Seq<u8>, n: nat) -> Seq<Seq<char>>
    decreases n,
{
    if n == 0 {
        seq![]
    } else {
        let rest = attachment_names(raw, (n - 1) as nat);
        match mime_attachment_name(raw, (n - 1) as nat) {
            Some(name) => rest.push(or_else(name, "unnamed"@)),
            None => rest,
        }
    }
}

/// What `raw`, stored at `raw_path`, reads as (nothing when it does not
/// parse): an unknown id is `unknown`, a missing subject `(no subject)`,
/// any other missing field empty.
pub open spec fn email_of(raw: Seq<u8>, raw_path: Seq<char>) -> Option<EmailV> {
    if !mime_parses(raw) {
        None
    } else {
        let body = or_else(mime_body_text(raw), seq![]);
        Some(
            EmailV {
                message_id: or_else(mime_message_id(raw), "unknown"@),
                from: sender_text(mime_first_from(raw)),
                to: or_else(mime_first_to(raw), seq![]),
                subject: or_else(mime_subject(raw), "(no subject)"@),
                date: or_else(mime_date(raw), seq![]),
                body_text: body,
                body_preview: preview_of(body),
                has_attachments: mime_attachment_count(raw) > 0,
                attachment_names: attachment_names(raw, mime_attachment_count(raw)),
                raw_path,
            },
        )
    }
}

fn text_or(o: Option<String>, d: &str) -> (r: String)
    ensures
        r@ == or_else(opt_text(o), d@),
{
    match o {
        Some(s) => s,
        None => owned(d),
    }
}

/// The sender as shown.
fn show_sender(f: Option<(Option<String>, Option<String>)>) -> (r: String)
    ensures
        r@ == sender_text(opt_pair_text(f)),
{
    match f {
        Some((Some(name), addr)) => {
            let ghost a = opt_text(addr);
            let mut s = name;
            let ghost n = s@;
            s.append(" <");
            append_string(&mut s, &text_or(addr, ""));
            s.append(">");
            assert(s@ =~= n + " <"@ + or_else(a, ""@) + ">"@);
            assert(""@ =~= Seq::<char>::empty()) by {
                reveal_strlit("");
            }
            s
        },
        Some((None, addr)) => {
            let r = text_or(addr, "");
            assert(""@ =~= Seq::<char>::empty()) by {
                reveal_strlit("");
            }
            r
        },
        None => String::new(),
    }
}

/// Reads a delivered message from its raw bytes; `None` when it does not
/// parse as a message.
pub fn parse_email(raw: &[u8], raw_path: &str) -> (r: Option<ParsedEmail>)
    ensures
        match r {
            Some(e) => email_of(raw@, raw_path@) == Some(email_view(e)),
            None => email_of(raw@, raw_path@) is None,
        },
{
    if !parses(raw) {
        return None;
    }
    proof {
        reveal_strlit("");
        assert(""@ =~= Seq::<char>::empty());
    }
    let message_id = text_or(message_id_of(raw), "unknown");
    let from = show_sender(first_from_of(raw));
    let to = text_or(first_to_of(raw), "");
    let subject = text_or(subject_of(raw), "(no subject)");
    let date = text_or(date_of(raw), "");
    let body_text = text_or(body_text_of(raw), "");
    let chars = chars_of(body_text.as_str());
    let body_preview = if chars.len() <= 200 {
        string_of(&chars)
    } else {
        string_of(&slice_chars(&chars, 0, 200))
    };
    assert(body_preview@ =~= preview_of(body_text@));
    let count = attachment_count_of(raw);
    let mut names: Vec<String> = Vec::new();
    let mut i: usize = 0;
    while i < count
        invariant
            i <= count,
            count == mime_attachment_count(raw@),
            names@.map_values(|s: String| s@) == attachment_names(raw@, i as nat),
        decreases count - i,
    {
        let ghost before = names@;
        match attachment_name_of(raw, i) {
            Some(n) => {
                let name = text_or(n, "unnamed");
                names.push(name);
                assert(names@.map_values(|s: String| s@) =~= before.map_values(|s: String| s@).push(
                    name@,
                ));
            },
            None => {},
        }
        i = i + 1;
    }
    let e = ParsedEmail {
        message_id,
        from,
        to,
        subject,
        date,
        body_text,
        body_preview,
        has_attachments: count > 0,
        attachment_names: names,
        raw_path: owned(raw_path),
    };
    Some(e)
}

/// Whether `extract_address` can take `s` apart: a `>` that comes before
/// the first `<` is refused.
pub open spec fn address_well_placed(s: Seq<char>) -> bool {
    match (first_index(s, '<'), first_index(s, '>')) {
        (Some(a), Some(b)) => a < b,
        _ => true,
    }
}

/// The address of a `Name <address>` string: the text between the first
/// `<` and the first `>` when both occur, else the whole string trimmed.
pub open spec fn address_of(s: Seq<char>) -> Seq<char> {
    match (first_index(s, '<'), first_index(s, '>')) {
        (Some(a), Some(b)) => s.subrange(a + 1, b),
        _ => trim(s),
    }
}

/// Extracts the bare address from a `Name <address>` string.
pub fn extract_address(addr_str: &str) -> (r: String)
    requires
        address_well_placed(addr_str@),
    ensures
        r@ == address_of(addr_str@),
{
    let v = chars_of(addr_str);
    match crate::text::find_char(&v, '<') {
        Some(start) => match crate::text::find_char(&v, '>') {
            Some(end) => {
                proof {
                    crate::text::lemma_first_index_facts(v@, '<');
                    crate::text::lemma_first_index_facts(v@, '>');
                }
                string_of(&slice_chars(&v, start + 1, end))
            },
            None => trimmed(addr_str),
        },
        None => trimmed(addr_str),
    }
}

/// Whether `extract_address` can take `s` apart (no `>` before the first
/// `<`): the check a caller makes before handing it a sender.
pub fn address_is_well_placed(s: &str) -> (r: bool)
    ensures
        r == address_well_placed(s@),
{
    let v = chars_of(s);
    match (crate::text::find_char(&v, '<'), crate::text::find_char(&v, '>')) {
        (Some(a), Some(b)) => a < b,
        _ => true,
    }
}

} // verus!
