//! Builders for the recurring messages: DNS-record dispatches, bounce
//! notices, operations alerts, weekly digests, feedback and inquiry
//! notifications, shipping updates, password resets, address
//! verification and sign-in links.
use vstd::prelude::*;
use crate::templates::document::{
    Block, BlockV, BodyV, Cta, DocV, EmailDocument, Field, FieldV, GroupBody, GroupCard, GroupV, RecordCard,
    RecordV, CodeBlock, block_view, doc_view, field_view, opt_view, record_view,
};
use crate::seqs::{filter_map, lemma_filter_map_step, lemma_take_full};
use crate::text::{append_string, chars_of, is_empty_str, dec, dec_int, fmt_i64, fmt_u64, is_blank, owned, string_of_range, trim};

verus! {

// ----- shared pieces -------------------------------------------------

/// A paragraph block.
pub(crate) fn paragraph(text: String) -> (b: Block)
    ensures
        block_view(b) == BlockV::Paragraph(text@),
{
    Block::Paragraph { text }
}

/// A field row.
pub(crate) fn field(label: &str, value: String, mono: bool) -> (f: Field)
    ensures
        field_view(f) == (FieldV { label: label@, value: value@, mono }),
{
    Field { label: owned(label), value, mono }
}

/// A call-to-action block.
fn cta(label: String, href: String) -> (b: Block)
    ensures
        block_view(b) == BlockV::Cta(label@, href@),
{
    Block::Cta(Cta { label, href })
}

/// A card with a field table.
pub(crate) fn fields_group(eyebrow: String, title: String, subtitle: Option<String>, fields: Vec<Field>) -> (b: Block)
    ensures
        block_view(b) == BlockV::Group(
            GroupV {
                eyebrow: eyebrow@,
                title: title@,
                subtitle: opt_view(subtitle),
                body: BodyV::Fields(fields@.map_values(|f: Field| field_view(f))),
                how_to: None,
            },
        ),
{
    Block::Group(GroupCard { eyebrow, title, subtitle, body: GroupBody::Fields { fields }, how_to: None })
}

/// The fallback card that repeats a link for clients without buttons.
pub open spec fn fallback_card(url: Seq<char>) -> BlockV {
    BlockV::Group(
        GroupV {
            eyebrow: "Fallback"@,
            title: "If the button doesn't work"@,
            subtitle: Some("Paste this URL directly into your browser."@),
            body: BodyV::Fields(seq![FieldV { label: "URL"@, value: url, mono: true }]),
            how_to: None,
        },
    )
}

fn fallback_block(url: &str) -> (b: Block)
    ensures
        block_view(b) == fallback_card(url@),
{
    let fs = vec![field("URL", owned(url), true)];
    let b = fields_group(
        owned("Fallback"),
        owned("If the button doesn't work"),
        Some(owned("Paste this URL directly into your browser.")),
        fs,
    );
    assert(fs@.map_values(|f: Field| field_view(f)) =~= seq![FieldV { label: "URL"@, value: url@, mono: true }]);
    b
}

// ----- sign-in link --------------------------------------------------

/// The sign-in link message.
pub open spec fn magic_link_doc(link: Seq<char>) -> DocV {
    DocV {
        subject: "Sign in to PlausiDen admin"@,
        preheader: "Single-use sign-in link, valid for 15 minutes."@,
        eyebrow: Some("Sign-in link"@),
        heading: "Sign in to PlausiDen admin"@,
        intro: None,
        blocks: seq![
            BlockV::Paragraph("Click the button below within 15 minutes to sign in. The link is single-use — once you click it, it can't be reused."@),
            BlockV::Cta("Sign in →"@, link),
            fallback_card(link),
            BlockV::Paragraph("Didn't request this? You can safely ignore this email — the link will expire on its own."@),
        ],
        footer_lines: seq![],
    }
}

/// The "Sign in to PlausiDen admin" magic-link message.
pub fn magic_link(link: &str) -> (d: EmailDocument)
    ensures
        doc_view(d) == magic_link_doc(link@),
{
    let blocks = vec![
        paragraph(owned("Click the button below within 15 minutes to sign in. The link is single-use — once you click it, it can't be reused.")),
        cta(owned("Sign in →"), owned(link)),
        fallback_block(link),
        paragraph(owned("Didn't request this? You can safely ignore this email — the link will expire on its own.")),
    ];
    let d = EmailDocument {
        subject: owned("Sign in to PlausiDen admin"),
        preheader: owned("Single-use sign-in link, valid for 15 minutes."),
        eyebrow: Some(owned("Sign-in link")),
        heading: owned("Sign in to PlausiDen admin"),
        intro: None,
        blocks,
        footer_lines: Vec::new(),
    };
    assert(doc_view(d).blocks =~= magic_link_doc(link@).blocks);
    assert(doc_view(d).footer_lines =~= magic_link_doc(link@).footer_lines);
    d
}

/// The views of a sequence of blocks.
pub open spec fn blocks_v(bs: Seq<Block>) -> Seq<BlockV> {
    bs.map_values(|b: Block| block_view(b))
}

/// The views of a sequence of fields.
pub open spec fn fields_v(fs: Seq<Field>) -> Seq<FieldV> {
    fs.map_values(|f: Field| field_view(f))
}

/// Pushing a block extends the views by its view.
proof fn lemma_blocks_push(bs: Seq<Block>, b: Block)
    ensures
        blocks_v(bs.push(b)) == blocks_v(bs).push(block_view(b)),
{
    assert(blocks_v(bs.push(b)) =~= blocks_v(bs).push(block_view(b)));
}

/// The first `n` characters of `s` (`chars().take(n)`).
pub open spec fn take_chars(s: Seq<char>, n: nat) -> Seq<char> {
    if s.len() <= n {
        s
    } else {
        s.take(n as int)
    }
}

/// The first `n` characters of a string.
fn first_chars(s: &str, n: usize) -> (r: String)
    ensures
        r@ == take_chars(s@, n as nat),
{
    let v = chars_of(s);
    let end = if v.len() <= n {
        v.len()
    } else {
        n
    };
    let r = string_of_range(&v, 0, end);
    assert(r@ =~= take_chars(s@, n as nat));
    r
}

// ----- password reset and address verification ----------------------

/// The password-reset message.
pub open spec fn password_reset_doc(link: Seq<char>, minutes: nat) -> DocV {
    DocV {
        subject: "Reset your PlausiDen password"@,
        preheader: "Single-use reset link, valid for "@ + dec(minutes) + " minutes."@,
        eyebrow: Some("Password reset"@),
        heading: "Reset your password"@,
        intro: None,
        blocks: seq![
            BlockV::Paragraph("Someone (probably you) asked to reset your password. Click the button below within "@ + dec(minutes) + " minutes to pick a new one. The link is single-use — once used, it can't be used again."@),
            BlockV::Cta("Reset password →"@, link),
            fallback_card(link),
            BlockV::Paragraph("Didn't request this? Someone may have typed your email address by mistake — you can ignore this message and nothing will change. If reset requests keep arriving, reply to this thread and we'll look into it."@),
        ],
        footer_lines: seq![],
    }
}

/// A password-reset message: a one-tap link to the form where the user
/// picks a new password, valid for `expires_in_minutes`.
pub fn password_reset(reset_link: &str, expires_in_minutes: u32) -> (d: EmailDocument)
    ensures
        doc_view(d) == password_reset_doc(reset_link@, expires_in_minutes as nat),
{
    let m = fmt_u64(expires_in_minutes as u64);
    let mut p = owned("Someone (probably you) asked to reset your password. Click the button below within ");
    append_string(&mut p, &m);
    p.append(" minutes to pick a new one. The link is single-use — once used, it can't be used again.");
    let mut pre = owned("Single-use reset link, valid for ");
    append_string(&mut pre, &m);
    pre.append(" minutes.");
    let blocks = vec![
        paragraph(p),
        cta(owned("Reset password →"), owned(reset_link)),
        fallback_block(reset_link),
        paragraph(owned("Didn't request this? Someone may have typed your email address by mistake — you can ignore this message and nothing will change. If reset requests keep arriving, reply to this thread and we'll look into it.")),
    ];
    let d = EmailDocument {
        subject: owned("Reset your PlausiDen password"),
        preheader: pre,
        eyebrow: Some(owned("Password reset")),
        heading: owned("Reset your password"),
        intro: None,
        blocks,
        footer_lines: Vec::new(),
    };
    assert(doc_view(d).blocks =~= password_reset_doc(reset_link@, expires_in_minutes as nat).blocks);
    assert(doc_view(d).footer_lines =~= seq![]);
    d
}

/// The address-verification message.
pub open spec fn email_verification_doc(link: Seq<char>, hours: nat) -> DocV {
    DocV {
        subject: "Confirm your email — PlausiDen"@,
        preheader: "Verify your address; link valid for "@ + dec(hours) + " hours."@,
        eyebrow: Some("Email verification"@),
        heading: "Confirm your email address"@,
        intro: None,
        blocks: seq![
            BlockV::Paragraph("Welcome. Confirm this email address belongs to you so we can finish setting up your account. The link below is valid for "@ + dec(hours) + " hours and works once."@),
            BlockV::Cta("Verify email →"@, link),
            fallback_card(link),
            BlockV::Paragraph("Didn't sign up? Ignore this email — without confirmation, no account is activated."@),
        ],
        footer_lines: seq![],
    }
}

/// An address-verification message for new sign-ups, with a one-time link
/// valid for `expires_in_hours`.
pub fn email_verification(verify_link: &str, expires_in_hours: u32) -> (d: EmailDocument)
    ensures
        doc_view(d) == email_verification_doc(verify_link@, expires_in_hours as nat),
{
    let h = fmt_u64(expires_in_hours as u64);
    let mut p = owned("Welcome. Confirm this email address belongs to you so we can finish setting up your account. The link below is valid for ");
    append_string(&mut p, &h);
    p.append(" hours and works once.");
    let mut pre = owned("Verify your address; link valid for ");
    append_string(&mut pre, &h);
    pre.append(" hours.");
    let blocks = vec![
        paragraph(p),
        cta(owned("Verify email →"), owned(verify_link)),
        fallback_block(verify_link),
        paragraph(owned("Didn't sign up? Ignore this email — without confirmation, no account is activated.")),
    ];
    let d = EmailDocument {
        subject: owned("Confirm your email — PlausiDen"),
        preheader: pre,
        eyebrow: Some(owned("Email verification")),
        heading: owned("Confirm your email address"),
        intro: None,
        blocks,
        footer_lines: Vec::new(),
    };
    assert(doc_view(d).blocks =~= email_verification_doc(verify_link@, expires_in_hours as nat).blocks);
    assert(doc_view(d).footer_lines =~= seq![]);
    d
}

// ----- bounce notices ------------------------------------------------

/// Why a message could not be delivered.
#[derive(Debug, Clone, Copy, PartialEq, Eq, Structural)]
pub enum BounceReason {
    /// 5.1.1: the recipient does not exist.
    UserUnknown,
    /// 5.7.1: rejected by content policy or authentication.
    PolicyReject,
    /// 4.x.x: a temporary failure, still retrying.
    Temporary,
    /// Any other SMTP response.
    Other,
}

/// The eyebrow, heading and explanation of each bounce reason.
pub open spec fn bounce_copy(reason: BounceReason) -> (Seq<char>, Seq<char>, Seq<char>) {
    match reason {
        BounceReason::UserUnknown => (
            "Undeliverable · 5.1.1"@,
            "Recipient address doesn't exist"@,
            "The mailbox you sent to isn't configured at the destination server. Check the address for typos — capitalization is OK (we lowercase before lookup), but a wrong local part won't route. If you copied this address from somewhere, the most likely cause is a stale reference; the recipient may have deactivated or never had a mailbox here."@,
        ),
        BounceReason::PolicyReject => (
            "Undeliverable · 5.7.x"@,
            "Message rejected by policy"@,
            "The destination server refused this message. Common reasons: SPF / DKIM / DMARC alignment failure, content matched a filter, or your sender IP is on a blocklist the recipient trusts. The diagnostic line below is the verbatim SMTP response."@,
        ),
        BounceReason::Temporary => (
            "Delayed · 4.x.x"@,
            "Message delayed — still trying"@,
            "The destination server returned a temporary failure. We'll keep retrying for up to five days. No action needed unless the message is time-sensitive — in which case contact the recipient over a different channel and let us know."@,
        ),
        BounceReason::Other => (
            "Undeliverable"@,
            "Message couldn't be delivered"@,
            "An unexpected SMTP response prevented delivery. The verbatim diagnostic from the destination server is below — feel free to forward this email to team@plausiden.com if you'd like help interpreting it."@,
        ),
    }
}

/// The bounce notice.
pub open spec fn bounce_doc(
    to: Seq<char>,
    failed: Seq<char>,
    reason: BounceReason,
    diagnostic: Seq<char>,
    original_subject: Seq<char>,
) -> DocV {
    DocV {
        subject: "Undeliverable: "@ + original_subject,
        preheader: "We couldn't deliver to "@ + failed + "."@,
        eyebrow: Some(bounce_copy(reason).0),
        heading: bounce_copy(reason).1,
        intro: Some(
            "We tried to deliver your message to "@ + failed
                + ", but the destination server returned an error."@,
        ),
        blocks: seq![
            BlockV::Paragraph(bounce_copy(reason).2),
            BlockV::Group(GroupV {
                eyebrow: "Failed delivery"@,
                title: "What we tried to deliver"@,
                subtitle: None,
                body: BodyV::Fields(seq![
                    FieldV { label: "To"@, value: failed, mono: true },
                    FieldV { label: "Subject"@, value: original_subject, mono: false },
                    FieldV { label: "Server reply"@, value: diagnostic, mono: true },
                ]),
                how_to: None,
            }),
            BlockV::Paragraph("Your original message is attached as a copy at the end of this email — feel free to copy the body and re-send to a corrected address."@),
            BlockV::Cta("Email postmaster"@, "mailto:postmaster@plausiden.com"@),
        ],
        footer_lines: seq![
            "Bounce notice for "@ + to + " · sent by mail.plausiden.com"@,
            "If you think this is a mistake, forward this email to team@plausiden.com."@,
        ],
    }
}

/// The non-delivery notice sent to `to` about a message that could not
/// reach `failed_recipient`.
pub fn bounce(
    to: &str,
    failed_recipient: &str,
    reason: BounceReason,
    diagnostic: &str,
    original_subject: &str,
) -> (d: EmailDocument)
    ensures
        doc_view(d) == bounce_doc(to@, failed_recipient@, reason, diagnostic@, original_subject@),
{
    let (eyebrow_text, heading_text, why) = match reason {
        BounceReason::UserUnknown => (
            "Undeliverable · 5.1.1",
            "Recipient address doesn't exist",
            "The mailbox you sent to isn't configured at the destination server. Check the address for typos — capitalization is OK (we lowercase before lookup), but a wrong local part won't route. If you copied this address from somewhere, the most likely cause is a stale reference; the recipient may have deactivated or never had a mailbox here.",
        ),
        BounceReason::PolicyReject => (
            "Undeliverable · 5.7.x",
            "Message rejected by policy",
            "The destination server refused this message. Common reasons: SPF / DKIM / DMARC alignment failure, content matched a filter, or your sender IP is on a blocklist the recipient trusts. The diagnostic line below is the verbatim SMTP response.",
        ),
        BounceReason::Temporary => (
            "Delayed · 4.x.x",
            "Message delayed — still trying",
            "The destination server returned a temporary failure. We'll keep retrying for up to five days. No action needed unless the message is time-sensitive — in which case contact the recipient over a different channel and let us know.",
        ),
        BounceReason::Other => (
            "Undeliverable",
            "Message couldn't be delivered",
            "An unexpected SMTP response prevented delivery. The verbatim diagnostic from the destination server is below — feel free to forward this email to team@plausiden.com if you'd like help interpreting it.",
        ),
    };
    let fields = vec![
        field("To", owned(failed_recipient), true),
        field("Subject", owned(original_subject), false),
        field("Server reply", owned(diagnostic), true),
    ];
    assert(fields_v(fields@) =~= seq![
        FieldV { label: "To"@, value: failed_recipient@, mono: true },
        FieldV { label: "Subject"@, value: original_subject@, mono: false },
        FieldV { label: "Server reply"@, value: diagnostic@, mono: true },
    ]);
    let blocks = vec![
        paragraph(owned(why)),
        fields_group(owned("Failed delivery"), owned("What we tried to deliver"), None, fields),
        paragraph(owned("Your original message is attached as a copy at the end of this email — feel free to copy the body and re-send to a corrected address.")),
        cta(owned("Email postmaster"), owned("mailto:postmaster@plausiden.com")),
    ];
    let mut subject = owned("Undeliverable: ");
    subject.append(original_subject);
    let mut pre = owned("We couldn't deliver to ");
    pre.append(failed_recipient);
    pre.append(".");
    let mut intro = owned("We tried to deliver your message to ");
    intro.append(failed_recipient);
    intro.append(", but the destination server returned an error.");
    let mut f1 = owned("Bounce notice for ");
    f1.append(to);
    f1.append(" · sent by mail.plausiden.com");
    let footer = vec![f1, owned("If you think this is a mistake, forward this email to team@plausiden.com.")];
    let d = EmailDocument {
        subject,
        preheader: pre,
        eyebrow: Some(owned(eyebrow_text)),
        heading: owned(heading_text),
        intro: Some(intro),
        blocks,
        footer_lines: footer,
    };
    let ghost spec = bounce_doc(to@, failed_recipient@, reason, diagnostic@, original_subject@);
    assert(doc_view(d).blocks =~= spec.blocks);
    assert(doc_view(d).footer_lines =~= spec.footer_lines);
    d
}

// ----- operations alerts ---------------------------------------------

/// Severity of an operations alert: `Critical` pages, `Warning` is looked
/// at within the day, `Info` is observability noise.
#[derive(Debug, Clone, Copy, PartialEq, Eq, Structural)]
pub enum AlertSeverity {
    /// Service down, data loss or a breach in progress.
    Critical,
    /// Disk filling, certificates expiring, queues backing up.
    Warning,
    /// A cron job ran, a digest, a build promoted.
    Info,
}

/// The eyebrow of each severity.
pub open spec fn severity_eyebrow(s: AlertSeverity) -> Seq<char> {
    match s {
        AlertSeverity::Critical => "Critical · page"@,
        AlertSeverity::Warning => "Warning · investigate"@,
        AlertSeverity::Info => "Info"@,
    }
}

/// The subject tag of each severity.
pub open spec fn severity_tag(s: AlertSeverity) -> Seq<char> {
    match s {
        AlertSeverity::Critical => "[CRITICAL]"@,
        AlertSeverity::Warning => "[WARN]"@,
        AlertSeverity::Info => "[INFO]"@,
    }
}

impl AlertSeverity {
    /// The eyebrow text of this severity.
    pub fn eyebrow(self) -> (r: &'static str)
        ensures
            r@ == severity_eyebrow(self),
    {
        match self {
            AlertSeverity::Critical => "Critical · page",
            AlertSeverity::Warning => "Warning · investigate",
            AlertSeverity::Info => "Info",
        }
    }
}

/// The views of an optional string slice.
pub open spec fn opt_str_view(o: Option<&str>) -> Option<Seq<char>> {
    match o {
        Some(s) => Some(s@),
        None => None,
    }
}

/// The alert message.
pub open spec fn alert_doc(
    severity: AlertSeverity,
    title: Seq<char>,
    summary: Seq<char>,
    fields: Seq<FieldV>,
    runbook_url: Option<Seq<char>>,
    on_call: Option<Seq<char>>,
) -> DocV {
    let base = seq![
        BlockV::Paragraph(summary),
        BlockV::Group(GroupV {
            eyebrow: "Context"@,
            title: "Signal at a glance"@,
            subtitle: None,
            body: BodyV::Fields(fields),
            how_to: None,
        }),
    ];
    DocV {
        subject: severity_tag(severity) + " "@ + title,
        preheader: take_chars(summary, 120),
        eyebrow: Some(severity_eyebrow(severity)),
        heading: title,
        intro: None,
        blocks: match runbook_url {
            Some(url) => base.push(BlockV::Cta("Open runbook →"@, url)),
            None => base,
        },
        footer_lines: seq![
            match on_call {
                Some(c) => c,
                None => "Reply to this thread or page team@plausiden.com."@,
            },
            "Generated by mail-orchestrator alerts."@,
        ],
    }
}

/// An operations alert: `title` is the headline and subject, `summary`
/// opens the body, `fields` are the context rows, `runbook_url` becomes a
/// button, `on_call` the contact line (a default when absent).
pub fn alert(
    severity: AlertSeverity,
    title: &str,
    summary: &str,
    fields: Vec<Field>,
    runbook_url: Option<&str>,
    on_call: Option<&str>,
) -> (d: EmailDocument)
    ensures
        doc_view(d) == alert_doc(
            severity,
            title@,
            summary@,
            fields_v(fields@),
            opt_str_view(runbook_url),
            opt_str_view(on_call),
        ),
{
    let tag = match severity {
        AlertSeverity::Critical => "[CRITICAL]",
        AlertSeverity::Warning => "[WARN]",
        AlertSeverity::Info => "[INFO]",
    };
    let ghost fv = fields_v(fields@);
    let mut blocks = vec![
        paragraph(owned(summary)),
        fields_group(owned("Context"), owned("Signal at a glance"), None, fields),
    ];
    let ghost base = blocks_v(blocks@);
    match runbook_url {
        Some(url) => {
            let b = cta(owned("Open runbook →"), owned(url));
            proof {
                lemma_blocks_push(blocks@, b);
            }
            blocks.push(b);
        },
        None => {},
    }
    let on_call_line = match on_call {
        Some(c) => c,
        None => "Reply to this thread or page team@plausiden.com.",
    };
    let mut subject = owned(tag);
    subject.append(" ");
    subject.append(title);
    let d = EmailDocument {
        subject,
        preheader: first_chars(summary, 120),
        eyebrow: Some(owned(severity.eyebrow())),
        heading: owned(title),
        intro: None,
        blocks,
        footer_lines: vec![owned(on_call_line), owned("Generated by mail-orchestrator alerts.")],
    };
    let ghost spec = alert_doc(
        severity,
        title@,
        summary@,
        fv,
        opt_str_view(runbook_url),
        opt_str_view(on_call),
    );
    assert(base =~= seq![
        BlockV::Paragraph(summary@),
        BlockV::Group(GroupV {
            eyebrow: "Context"@,
            title: "Signal at a glance"@,
            subtitle: None,
            body: BodyV::Fields(fv),
            how_to: None,
        }),
    ]);
    assert(doc_view(d).blocks =~= spec.blocks);
    assert(doc_view(d).footer_lines =~= spec.footer_lines);
    d
}

// ----- weekly digest -------------------------------------------------

/// One row of a digest: a category with a count and an optional caption.
#[derive(Debug, Clone)]
pub struct DigestRow {
    /// Category name (`"Inbox"`, `"Updates"`).
    pub category: String,
    /// Items this week.
    pub count: u32,
    /// Optional caption (`"3 unread"`).
    pub caption: Option<String>,
}

/// The record card of the `i`-th of `total` digest rows.
pub open spec fn digest_record(r: DigestRow, i: nat, total: nat) -> RecordV {
    RecordV {
        eyebrow: "Row "@ + dec(i + 1) + " of "@ + dec(total),
        primary_label: r.category@,
        type_tag: Some(dec(r.count as nat)),
        value: match r.caption {
            Some(c) => c@,
            None => seq![],
        },
        note: None,
    }
}

/// The digest message.
pub open spec fn digest_doc(
    period_label: Seq<char>,
    headline: Seq<char>,
    rows: Seq<DigestRow>,
    extras: Seq<Seq<char>>,
) -> DocV {
    DocV {
        subject: "Digest · "@ + period_label,
        preheader: take_chars(headline, 120),
        eyebrow: Some("Weekly digest"@),
        heading: "Digest · "@ + period_label,
        intro: None,
        blocks: seq![
            BlockV::Group(GroupV {
                eyebrow: "Digest"@,
                title: headline,
                subtitle: Some(period_label),
                body: BodyV::Records(
                    Seq::new(rows.len(), |i: int| digest_record(rows[i], i as nat, rows.len())),
                ),
                how_to: None,
            }),
        ] + extras.map_values(|e: Seq<char>| BlockV::Paragraph(e)),
        footer_lines: seq!["Generated by mail-orchestrator weekly summary."@],
    }
}

/// A weekly digest for `period_label`: one card whose records are the
/// rows, then the extra paragraphs.
pub fn weekly_digest(
    period_label: &str,
    headline: &str,
    rows: Vec<DigestRow>,
    extras: Vec<String>,
) -> (d: EmailDocument)
    requires
        rows@.len() < u64::MAX,
    ensures
        doc_view(d) == digest_doc(
            period_label@,
            headline@,
            rows@,
            extras@.map_values(|e: String| e@),
        ),
{
    let total = rows.len();
    let mut records: Vec<RecordCard> = Vec::new();
    let mut i: usize = 0;
    while i < rows.len()
        invariant
            i <= rows@.len(),
            total == rows@.len(),
            rows@.len() < u64::MAX,
            records@.len() == i,
            forall|k: int|
                0 <= k < i ==> #[trigger] record_view(records@[k]) == digest_record(
                    rows@[k],
                    k as nat,
                    total as nat,
                ),
        decreases rows.len() - i,
    {
        let r = &rows[i];
        let mut eyebrow = owned("Row ");
        let n = fmt_u64((i + 1) as u64);
        append_string(&mut eyebrow, &n);
        eyebrow.append(" of ");
        let t = fmt_u64(total as u64);
        append_string(&mut eyebrow, &t);
        let value = match &r.caption {
            Some(c) => c.clone(),
            None => String::new(),
        };
        let rec = RecordCard {
            eyebrow,
            primary_label: r.category.clone(),
            type_tag: Some(fmt_u64(r.count as u64)),
            value,
            note: None,
        };
        records.push(rec);
        i = i + 1;
    }
    let ghost recs = records@.map_values(|r: RecordCard| record_view(r));
    assert(recs =~= Seq::new(rows@.len(), |i: int| digest_record(rows@[i], i as nat, rows@.len())));
    let mut blocks: Vec<Block> = vec![
        Block::Group(
            GroupCard {
                eyebrow: owned("Digest"),
                title: owned(headline),
                subtitle: Some(owned(period_label)),
                body: GroupBody::Records { records },
                how_to: None,
            },
        ),
    ];
    let ghost head = blocks_v(blocks@);
    let ghost ev = extras@.map_values(|e: String| e@);
    let mut k: usize = 0;
    while k < extras.len()
        invariant
            k <= extras@.len(),
            ev == extras@.map_values(|e: String| e@),
            blocks_v(blocks@) == head + ev.take(k as int).map_values(
                |e: Seq<char>| BlockV::Paragraph(e),
            ),
        decreases extras.len() - k,
    {
        let b = paragraph(extras[k].clone());
        proof {
            lemma_blocks_push(blocks@, b);
        }
        blocks.push(b);
        assert(ev.take(k + 1).map_values(|e: Seq<char>| BlockV::Paragraph(e)) =~= ev.take(
            k as int,
        ).map_values(|e: Seq<char>| BlockV::Paragraph(e)).push(BlockV::Paragraph(ev[k as int])));
        k = k + 1;
    }
    assert(ev.take(ev.len() as int) =~= ev);
    let mut subject = owned("Digest · ");
    subject.append(period_label);
    let mut heading = owned("Digest · ");
    heading.append(period_label);
    let d = EmailDocument {
        subject,
        preheader: first_chars(headline, 120),
        eyebrow: Some(owned("Weekly digest")),
        heading,
        intro: None,
        blocks,
        footer_lines: vec![owned("Generated by mail-orchestrator weekly summary.")],
    };
    let ghost spec = digest_doc(period_label@, headline@, rows@, ev);
    assert(head =~= seq![spec.blocks[0]]);
    assert(doc_view(d).blocks =~= spec.blocks);
    assert(doc_view(d).footer_lines =~= spec.footer_lines);
    d
}

// ----- feedback and inquiries ----------------------------------------

/// One labelled long-form answer of a feedback submission.
#[derive(Debug, Clone)]
pub struct FeedbackSection {
    /// The question (`"What worked well"`).
    pub label: String,
    /// The free-form answer.
    pub body: String,
}

/// The card of an answered section: the label as eyebrow, no title, and
/// one `Answer` field holding the answer.
pub open spec fn answer_card(sec: FeedbackSection) -> BlockV {
    BlockV::Group(
        GroupV {
            eyebrow: sec.label@,
            title: seq![],
            subtitle: None,
            body: BodyV::Fields(seq![FieldV { label: "Answer"@, value: sec.body@, mono: false }]),
            how_to: None,
        },
    )
}

/// The block of one section: its card, or nothing when the answer is blank.
pub open spec fn answer_blocks_of(sec: FeedbackSection) -> Seq<BlockV> {
    if trim(sec.body@).len() > 0 {
        seq![answer_card(sec)]
    } else {
        seq![]
    }
}

/// The blocks of the answered sections, in order (blank answers are
/// skipped).
pub open spec fn answer_blocks(sections: Seq<FeedbackSection>) -> Seq<BlockV>
    decreases sections.len(),
{
    if sections.len() == 0 {
        seq![]
    } else {
        answer_blocks(sections.drop_last()) + answer_blocks_of(sections.last())
    }
}

/// The sender card of a feedback notification.
pub open spec fn feedback_sender(name: Seq<char>, email: Seq<char>, company: Seq<char>, consent: Seq<char>) -> BlockV {
    BlockV::Group(
        GroupV {
            eyebrow: "Sender"@,
            title: name,
            subtitle: Some(
                email + if company.len() == 0 {
                    seq![]
                } else {
                    " · "@ + company
                },
            ),
            body: BodyV::Fields(
                seq![
                    FieldV {
                        label: "Consent"@,
                        value: if consent.len() == 0 {
                            "(none)"@
                        } else {
                            consent
                        },
                        mono: true,
                    },
                ],
            ),
            how_to: None,
        },
    )
}

/// The feedback notification.
pub open spec fn feedback_doc(
    row_id: int,
    name: Seq<char>,
    email: Seq<char>,
    company: Seq<char>,
    consent: Seq<char>,
    sections: Seq<FeedbackSection>,
    admin_url: Option<Seq<char>>,
) -> DocV {
    let sender = feedback_sender(name, email, company, consent);
    let answers = answer_blocks(sections);
    let body = seq![sender] + answers + if answers.len() == 0 {
        seq![BlockV::Paragraph("(No long-form answers provided.)"@)]
    } else {
        seq![]
    };
    DocV {
        subject: "[feedback #"@ + dec_int(row_id) + "] "@ + name,
        preheader: "New feedback from "@ + name + " (#"@ + dec_int(row_id) + ")"@,
        eyebrow: Some("Feedback · #"@ + dec_int(row_id)),
        heading: "New feedback received"@,
        intro: Some("Submitted via the public form at plausiden.com/feedback."@),
        blocks: match admin_url {
            Some(url) => body.push(BlockV::Cta("View in admin →"@, url)),
            None => body,
        },
        footer_lines: seq![],
    }
}

/// The team-facing "new feedback" message: the sender card, then one card
/// per answered section, in order (blank answers are dropped; a note stands
/// in when none is left), and an admin link when given.
pub fn feedback_received(
    row_id: i64,
    name: &str,
    email: &str,
    company: &str,
    consent: &str,
    sections: Vec<FeedbackSection>,
    admin_url: Option<&str>,
) -> (d: EmailDocument)
    ensures
        doc_view(d) == feedback_doc(
            row_id as int,
            name@,
            email@,
            company@,
            consent@,
            sections@,
            opt_str_view(admin_url),
        ),
{
    let ghost spec = feedback_doc(
        row_id as int,
        name@,
        email@,
        company@,
        consent@,
        sections@,
        opt_str_view(admin_url),
    );
    let mut subtitle = owned(email);
    if !is_empty_str(company) {
        subtitle.append(" · ");
        subtitle.append(company);
    }
    let consent_value = if is_empty_str(consent) {
        owned("(none)")
    } else {
        owned(consent)
    };
    let fields = vec![field("Consent", consent_value, true)];
    let ghost sender_v = feedback_sender(name@, email@, company@, consent@);
    assert(fields_v(fields@) =~= sender_v->Group_0.body->Fields_0);
    assert(subtitle@ =~= sender_v->Group_0.subtitle->Some_0);
    let sender = fields_group(owned("Sender"), owned(name), Some(subtitle), fields);
    let mut blocks: Vec<Block> = vec![sender];
    let ghost head = blocks_v(blocks@);
    let mut any_section_rendered = false;
    let mut i: usize = 0;
    while i < sections.len()
        invariant
            i <= sections@.len(),
            blocks_v(blocks@) == head + answer_blocks(sections@.take(i as int)),
            any_section_rendered == (answer_blocks(sections@.take(i as int)).len() > 0),
        decreases sections.len() - i,
    {
        assert(sections@.take(i + 1).drop_last() =~= sections@.take(i as int));
        assert(sections@.take(i + 1).last() == sections@[i as int]);
        let sec = &sections[i];
        let body_chars = chars_of(sec.body.as_str());
        if !is_blank(&body_chars) {
            any_section_rendered = true;
            let answer = vec![field("Answer", sec.body.clone(), false)];
            assert(fields_v(answer@) =~= seq![FieldV { label: "Answer"@, value: sec.body@, mono: false }]);
            let b = fields_group(sec.label.clone(), String::new(), None, answer);
            proof {
                lemma_blocks_push(blocks@, b);
            }
            blocks.push(b);
        }
        i = i + 1;
    }
    proof {
        lemma_take_full(sections@);
    }
    if !any_section_rendered {
        let b = paragraph(owned("(No long-form answers provided.)"));
        proof {
            lemma_blocks_push(blocks@, b);
        }
        blocks.push(b);
    }
    let ghost body_v = blocks_v(blocks@);
    match admin_url {
        Some(url) => {
            let b = cta(owned("View in admin →"), owned(url));
            proof {
                lemma_blocks_push(blocks@, b);
            }
            blocks.push(b);
        },
        None => {},
    }
    let id = fmt_i64(row_id);
    let mut subject = owned("[feedback #");
    append_string(&mut subject, &id);
    subject.append("] ");
    subject.append(name);
    let mut pre = owned("New feedback from ");
    pre.append(name);
    pre.append(" (#");
    append_string(&mut pre, &id);
    pre.append(")");
    let mut eyebrow = owned("Feedback · #");
    append_string(&mut eyebrow, &id);
    let d = EmailDocument {
        subject,
        preheader: pre,
        eyebrow: Some(eyebrow),
        heading: owned("New feedback received"),
        intro: Some(owned("Submitted via the public form at plausiden.com/feedback.")),
        blocks,
        footer_lines: Vec::new(),
    };
    assert(head =~= seq![sender_v]);
    assert(doc_view(d).blocks =~= spec.blocks);
    assert(doc_view(d).footer_lines =~= seq![]);
    d
}

/// `(omitted)` for an empty field.
pub open spec fn or_omitted(s: Seq<char>) -> Seq<char> {
    if s.len() == 0 {
        "(omitted)"@
    } else {
        s
    }
}

fn or_omitted_exec(s: &str) -> (r: String)
    ensures
        r@ == or_omitted(s@),
{
    if is_empty_str(s) {
        owned("(omitted)")
    } else {
        owned(s)
    }
}

/// The inquiry notification.
pub open spec fn inquiry_doc(
    name: Seq<char>,
    reply_to: Seq<char>,
    phone: Seq<char>,
    company: Seq<char>,
    service: Seq<char>,
    message: Seq<char>,
) -> DocV {
    DocV {
        subject: "Inquiry from "@ + or_omitted(name),
        preheader: "Inquiry from "@ + or_omitted(name) + " via plausiden.com/contact"@,
        eyebrow: Some("New inquiry"@),
        heading: "New encrypted inquiry"@,
        intro: Some("Submitted via the public form at plausiden.com/contact."@),
        blocks: seq![
            BlockV::Group(GroupV {
                eyebrow: "Sender"@,
                title: or_omitted(name),
                subtitle: Some(or_omitted(reply_to)),
                body: BodyV::Fields(seq![
                    FieldV { label: "Phone"@, value: or_omitted(phone), mono: false },
                    FieldV { label: "Company"@, value: or_omitted(company), mono: false },
                    FieldV { label: "Service"@, value: or_omitted(service), mono: false },
                ]),
                how_to: None,
            }),
            BlockV::Group(GroupV {
                eyebrow: "Message"@,
                title: seq![],
                subtitle: None,
                body: BodyV::Fields(seq![FieldV { label: "Body"@, value: message, mono: false }]),
                how_to: None,
            }),
            BlockV::Cta("Reply to "@ + or_omitted(name) + " →"@, "mailto:"@ + reply_to),
        ],
        footer_lines: seq![],
    }
}

/// The team-facing "new contact inquiry" message, with a reply button that
/// opens a mail to `reply_to`. Empty optional fields read `(omitted)`.
pub fn inquiry_received(
    name: &str,
    reply_to: &str,
    phone: &str,
    company: &str,
    service: &str,
    message: &str,
) -> (d: EmailDocument)
    ensures
        doc_view(d) == inquiry_doc(name@, reply_to@, phone@, company@, service@, message@),
{
    let ghost spec = inquiry_doc(name@, reply_to@, phone@, company@, service@, message@);
    let sender_fields = vec![
        field("Phone", or_omitted_exec(phone), false),
        field("Company", or_omitted_exec(company), false),
        field("Service", or_omitted_exec(service), false),
    ];
    assert(fields_v(sender_fields@) =~= spec.blocks[0]->Group_0.body->Fields_0);
    let body_fields = vec![field("Body", owned(message), false)];
    assert(fields_v(body_fields@) =~= spec.blocks[1]->Group_0.body->Fields_0);
    let mut label = owned("Reply to ");
    let n = or_omitted_exec(name);
    append_string(&mut label, &n);
    label.append(" →");
    let mut href = owned("mailto:");
    href.append(reply_to);
    let blocks = vec![
        fields_group(owned("Sender"), or_omitted_exec(name), Some(or_omitted_exec(reply_to)), sender_fields),
        fields_group(owned("Message"), String::new(), None, body_fields),
        cta(label, href),
    ];
    let mut subject = owned("Inquiry from ");
    append_string(&mut subject, &n);
    let mut pre = owned("Inquiry from ");
    append_string(&mut pre, &n);
    pre.append(" via plausiden.com/contact");
    let d = EmailDocument {
        subject,
        preheader: pre,
        eyebrow: Some(owned("New inquiry")),
        heading: owned("New encrypted inquiry"),
        intro: Some(owned("Submitted via the public form at plausiden.com/contact.")),
        blocks,
        footer_lines: Vec::new(),
    };
    assert(doc_view(d).blocks =~= spec.blocks);
    assert(doc_view(d).footer_lines =~= seq![]);
    d
}

// ----- shipping ------------------------------------------------------

/// Status of a tracked shipment.
#[derive(Debug, Clone, Copy, PartialEq, Eq, Structural)]
pub enum ShipmentStatus {
    /// Received by the carrier, en route.
    InTransit,
    /// Out for delivery today.
    OutForDelivery,
    /// Delivered.
    Delivered,
    /// Held, returned, or an address issue.
    Exception,
}

/// The eyebrow of each status.
pub open spec fn shipment_eyebrow(s: ShipmentStatus) -> Seq<char> {
    match s {
        ShipmentStatus::InTransit => "In transit"@,
        ShipmentStatus::OutForDelivery => "Out for delivery"@,
        ShipmentStatus::Delivered => "Delivered"@,
        ShipmentStatus::Exception => "Exception · action needed"@,
    }
}

impl ShipmentStatus {
    /// The eyebrow text of this status.
    pub fn eyebrow(self) -> (r: &'static str)
        ensures
            r@ == shipment_eyebrow(self),
    {
        match self {
            ShipmentStatus::InTransit => "In transit",
            ShipmentStatus::OutForDelivery => "Out for delivery",
            ShipmentStatus::Delivered => "Delivered",
            ShipmentStatus::Exception => "Exception · action needed",
        }
    }
}

/// The heading of a shipping update.
pub open spec fn shipment_heading(carrier: Seq<char>, s: ShipmentStatus) -> Seq<char> {
    match s {
        ShipmentStatus::InTransit => "Your "@ + carrier + " package is on the way"@,
        ShipmentStatus::OutForDelivery => "Your "@ + carrier + " package is out for delivery"@,
        ShipmentStatus::Delivered => "Your "@ + carrier + " package has been delivered"@,
        ShipmentStatus::Exception => "There's an issue with your "@ + carrier + " shipment"@,
    }
}

/// The explanation added to an exception update.
pub open spec fn exception_note() -> Seq<char> {
    "The carrier flagged this shipment with a delivery exception. Common causes: address validation failure, recipient not available, customs hold, weather delay. Open the tracking page above for the carrier's full diagnostic + your action options."@
}

/// The shipping update.
pub open spec fn shipping_doc(
    carrier: Seq<char>,
    tracking_number: Seq<char>,
    status: ShipmentStatus,
    expected_delivery: Option<Seq<char>>,
    tracking_url: Option<Seq<char>>,
) -> DocV {
    let base_fields = seq![
        FieldV { label: "Carrier"@, value: carrier, mono: false },
        FieldV { label: "Tracking #"@, value: tracking_number, mono: true },
        FieldV { label: "Status"@, value: shipment_eyebrow(status), mono: false },
    ];
    let fields = match expected_delivery {
        Some(eta) => base_fields.push(FieldV { label: "Expected"@, value: eta, mono: false }),
        None => base_fields,
    };
    let card = seq![
        BlockV::Group(GroupV {
            eyebrow: "Shipment"@,
            title: "At a glance"@,
            subtitle: None,
            body: BodyV::Fields(fields),
            how_to: None,
        }),
    ];
    let with_link = match tracking_url {
        Some(url) => card.push(BlockV::Cta("Track shipment →"@, url)),
        None => card,
    };
    DocV {
        subject: "["@ + carrier + "] "@ + shipment_heading(carrier, status),
        preheader: shipment_eyebrow(status) + " · tracking "@ + tracking_number,
        eyebrow: Some(shipment_eyebrow(status)),
        heading: shipment_heading(carrier, status),
        intro: None,
        blocks: if status == ShipmentStatus::Exception {
            with_link.push(BlockV::Paragraph(exception_note()))
        } else {
            with_link
        },
        footer_lines: seq![],
    }
}

/// A carrier tracking update: the status drives eyebrow and heading, an
/// expected date adds a row, a tracking URL adds a button, and an
/// exception adds an explanation.
pub fn shipping_notification(
    carrier: &str,
    tracking_number: &str,
    status: ShipmentStatus,
    expected_delivery: Option<&str>,
    tracking_url: Option<&str>,
) -> (d: EmailDocument)
    ensures
        doc_view(d) == shipping_doc(
            carrier@,
            tracking_number@,
            status,
            opt_str_view(expected_delivery),
            opt_str_view(tracking_url),
        ),
{
    let ghost spec = shipping_doc(
        carrier@,
        tracking_number@,
        status,
        opt_str_view(expected_delivery),
        opt_str_view(tracking_url),
    );
    let mut heading = match status {
        ShipmentStatus::InTransit => owned("Your "),
        ShipmentStatus::OutForDelivery => owned("Your "),
        ShipmentStatus::Delivered => owned("Your "),
        ShipmentStatus::Exception => owned("There's an issue with your "),
    };
    heading.append(carrier);
    match status {
        ShipmentStatus::InTransit => heading.append(" package is on the way"),
        ShipmentStatus::OutForDelivery => heading.append(" package is out for delivery"),
        ShipmentStatus::Delivered => heading.append(" package has been delivered"),
        ShipmentStatus::Exception => heading.append(" shipment"),
    }
    let mut fields = vec![
        field("Carrier", owned(carrier), false),
        field("Tracking #", owned(tracking_number), true),
        field("Status", owned(status.eyebrow()), false),
    ];
    let ghost base_fields = fields_v(fields@);
    match expected_delivery {
        Some(eta) => {
            let f = field("Expected", owned(eta), false);
            let ghost before = fields@;
            fields.push(f);
            assert(fields_v(fields@) =~= fields_v(before).push(field_view(f)));
        },
        None => {},
    }
    let ghost fv = fields_v(fields@);
    let mut blocks = vec![fields_group(owned("Shipment"), owned("At a glance"), None, fields)];
    match tracking_url {
        Some(url) => {
            let b = cta(owned("Track shipment →"), owned(url));
            proof {
                lemma_blocks_push(blocks@, b);
            }
            blocks.push(b);
        },
        None => {},
    }
    let ghost with_link = blocks_v(blocks@);
    if status == ShipmentStatus::Exception {
        let b = paragraph(owned("The carrier flagged this shipment with a delivery exception. Common causes: address validation failure, recipient not available, customs hold, weather delay. Open the tracking page above for the carrier's full diagnostic + your action options."));
        proof {
            lemma_blocks_push(blocks@, b);
        }
        blocks.push(b);
    }
    let mut subject = owned("[");
    subject.append(carrier);
    subject.append("] ");
    append_string(&mut subject, &heading);
    let mut pre = owned(status.eyebrow());
    pre.append(" · tracking ");
    pre.append(tracking_number);
    let d = EmailDocument {
        subject,
        preheader: pre,
        eyebrow: Some(owned(status.eyebrow())),
        heading,
        intro: None,
        blocks,
        footer_lines: Vec::new(),
    };
    assert(base_fields =~= seq![
        FieldV { label: "Carrier"@, value: carrier@, mono: false },
        FieldV { label: "Tracking #"@, value: tracking_number@, mono: true },
        FieldV { label: "Status"@, value: shipment_eyebrow(status), mono: false },
    ]);
    assert(doc_view(d).blocks =~= spec.blocks);
    assert(doc_view(d).footer_lines =~= seq![]);
    d
}

// ----- DNS records ---------------------------------------------------

/// One group of DNS records, rendered as a card of record cards.
#[derive(Debug, Clone)]
pub struct DnsGroup {
    /// Pill eyebrow (`"Group 1 · Salesman"`).
    pub eyebrow: String,
    /// Group title.
    pub title: String,
    /// Optional line under the title.
    pub subtitle: Option<String>,
    /// The records.
    pub records: Vec<DnsRecord>,
    /// Optional instruction for after publishing.
    pub how_to: Option<String>,
}

/// One DNS record.
#[derive(Debug, Clone)]
pub struct DnsRecord {
    /// Host (`outreach`).
    pub host: String,
    /// Type (`A`, `TXT`, `CNAME`, ...).
    pub record_type: String,
    /// Value.
    pub value: String,
    /// Optional note under the value.
    pub note: Option<String>,
}

/// The card of the `i`-th of `total` records.
pub open spec fn dns_record_card(r: DnsRecord, i: nat, total: nat) -> RecordV {
    RecordV {
        eyebrow: "Record "@ + dec(i + 1) + " of "@ + dec(total),
        primary_label: r.host@,
        type_tag: Some(r.record_type@),
        value: r.value@,
        note: opt_view(r.note),
    }
}

/// The card of a group.
pub open spec fn dns_group_card(g: DnsGroup) -> BlockV {
    BlockV::Group(
        GroupV {
            eyebrow: g.eyebrow@,
            title: g.title@,
            subtitle: opt_view(g.subtitle),
            body: BodyV::Records(
                Seq::new(
                    g.records@.len(),
                    |i: int| dns_record_card(g.records@[i], i as nat, g.records@.len()),
                ),
            ),
            how_to: opt_view(g.how_to),
        },
    )
}

/// The paragraph after the verification commands.
pub open spec fn dig_note() -> Seq<char> {
    "Each command should print at least one line once propagated (typically 5–30 min at the registrar). Empty output = not yet visible."@
}

/// The DNS dispatch.
pub open spec fn dns_doc(groups: Seq<DnsGroup>, dig_commands: Seq<Seq<char>>) -> DocV {
    DocV {
        subject: "DNS records to publish — plausiden.com"@,
        preheader: "Hostnames, types, values — paste at your registrar."@,
        eyebrow: Some("Pending DNS · plausiden.com"@),
        heading: "Records to add at your registrar"@,
        intro: Some("Records are grouped by purpose; you can publish a group at a time. Each card below is a single record — paste host, type, and value verbatim."@),
        blocks: groups.map_values(|g: DnsGroup| dns_group_card(g)) + if dig_commands.len() > 0 {
            seq![
                BlockV::Code(Some("Verification"@), dig_commands),
                BlockV::Paragraph(dig_note()),
            ]
        } else {
            seq![]
        },
        footer_lines: seq!["Source of truth: https://github.com/thepictishbeast/PlausiDen-Email-Config/blob/main/docs/DNS-RECORDS.md"@],
    }
}

/// The card of one DNS group.
fn dns_group_block(g: &DnsGroup) -> (b: Block)
    requires
        g.records@.len() < u64::MAX,
    ensures
        block_view(b) == dns_group_card(*g),
{
    let total = g.records.len();
    let mut records: Vec<RecordCard> = Vec::new();
    let mut i: usize = 0;
    while i < g.records.len()
        invariant
            i <= g.records@.len(),
            total == g.records@.len(),
            g.records@.len() < u64::MAX,
            records@.len() == i,
            forall|k: int|
                0 <= k < i ==> #[trigger] record_view(records@[k]) == dns_record_card(
                    g.records@[k],
                    k as nat,
                    total as nat,
                ),
        decreases g.records.len() - i,
    {
        let r = &g.records[i];
        let mut eyebrow = owned("Record ");
        let n = fmt_u64((i + 1) as u64);
        append_string(&mut eyebrow, &n);
        eyebrow.append(" of ");
        let t = fmt_u64(total as u64);
        append_string(&mut eyebrow, &t);
        let note = match &r.note {
            Some(n) => Some(n.clone()),
            None => None,
        };
        let rec = RecordCard {
            eyebrow,
            primary_label: r.host.clone(),
            type_tag: Some(r.record_type.clone()),
            value: r.value.clone(),
            note,
        };
        records.push(rec);
        i = i + 1;
    }
    let subtitle = match &g.subtitle {
        Some(s) => Some(s.clone()),
        None => None,
    };
    let how_to = match &g.how_to {
        Some(h) => Some(h.clone()),
        None => None,
    };
    let b = Block::Group(
        GroupCard {
            eyebrow: g.eyebrow.clone(),
            title: g.title.clone(),
            subtitle,
            body: GroupBody::Records { records },
            how_to,
        },
    );
    assert(block_view(b)->Group_0.body->Records_0 =~= dns_group_card(*g)->Group_0.body->Records_0);
    b
}

/// The "DNS records to publish" dispatch: one card per group, each record
/// its own nested card, then the `dig` commands to verify propagation.
pub fn dns_records(groups: Vec<DnsGroup>, dig_commands: Vec<String>) -> (d: EmailDocument)
    requires
        forall|i: int| 0 <= i < groups@.len() ==> #[trigger] groups@[i].records@.len() < u64::MAX,
    ensures
        doc_view(d) == dns_doc(groups@, dig_commands@.map_values(|c: String| c@)),
{
    let ghost cv = dig_commands@.map_values(|c: String| c@);
    let ghost spec = dns_doc(groups@, cv);
    let mut blocks: Vec<Block> = Vec::new();
    let mut i: usize = 0;
    while i < groups.len()
        invariant
            i <= groups@.len(),
            forall|j: int| 0 <= j < groups@.len() ==> #[trigger] groups@[j].records@.len() < u64::MAX,
            blocks_v(blocks@) == groups@.take(i as int).map_values(|g: DnsGroup| dns_group_card(g)),
        decreases groups.len() - i,
    {
        let b = dns_group_block(&groups[i]);
        proof {
            lemma_blocks_push(blocks@, b);
        }
        blocks.push(b);
        assert(groups@.take(i + 1).map_values(|g: DnsGroup| dns_group_card(g)) =~= groups@.take(
            i as int,
        ).map_values(|g: DnsGroup| dns_group_card(g)).push(dns_group_card(groups@[i as int])));
        i = i + 1;
    }
    assert(groups@.take(groups@.len() as int) =~= groups@);
    let ghost group_blocks = blocks_v(blocks@);
    if dig_commands.len() > 0 {
        let code = Block::Code(CodeBlock { eyebrow: Some(owned("Verification")), lines: dig_commands });
        proof {
            lemma_blocks_push(blocks@, code);
        }
        blocks.push(code);
        let p = paragraph(owned("Each command should print at least one line once propagated (typically 5–30 min at the registrar). Empty output = not yet visible."));
        proof {
            lemma_blocks_push(blocks@, p);
        }
        blocks.push(p);
    }
    let d = EmailDocument {
        subject: owned("DNS records to publish — plausiden.com"),
        preheader: owned("Hostnames, types, values — paste at your registrar."),
        eyebrow: Some(owned("Pending DNS · plausiden.com")),
        heading: owned("Records to add at your registrar"),
        intro: Some(owned("Records are grouped by purpose; you can publish a group at a time. Each card below is a single record — paste host, type, and value verbatim.")),
        blocks,
        footer_lines: vec![owned("Source of truth: https://github.com/thepictishbeast/PlausiDen-Email-Config/blob/main/docs/DNS-RECORDS.md")],
    };
    assert(doc_view(d).blocks =~= spec.blocks);
    assert(doc_view(d).footer_lines =~= spec.footer_lines);
    d
}

} // verus!
