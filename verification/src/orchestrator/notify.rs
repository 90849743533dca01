//! Announcing new mail in a service mailbox: who is told, and the
//! subject, plain text and branded HTML of the announcement.
use vstd::prelude::*;
use crate::orchestrator::config::NotifyConfig;
use crate::templates::document::{
    Block, BlockV, BodyV, DocV, EmailDocument, Field, FieldV, GroupV, block_view, doc_view,
    field_view,
};
use crate::templates::prebuilt::{field, fields_group, paragraph};
use crate::templates::render_html::html_document;
use crate::templates::theme::{Theme, is_plausiden};
use crate::text::{
    append_string, ascii_lower_chars, ascii_lower_seq, chars_of, first_index, owned, push_char,
    slice_chars, str_eq, string_of, to_upper, upper_text,
};

verus! {

// ----- who is told -----------------------------------------------------

/// The local part of a mailbox address: the text before the first `@`
/// (all of it when there is none).
pub open spec fn local_name(mailbox: Seq<char>) -> Seq<char> {
    match first_index(mailbox, '@') {
        Some(i) => mailbox.take(i),
        None => mailbox,
    }
}

/// The local part of a mailbox address.
pub fn mailbox_local_name(mailbox: &str) -> (r: String)
    ensures
        r@ == local_name(mailbox@),
{
    let v = chars_of(mailbox);
    match crate::text::find_char(&v, '@') {
        Some(i) => {
            proof {
                crate::text::lemma_first_index_facts(v@, '@');
            }
            let r = string_of(&slice_chars(&v, 0, i));
            assert(r@ =~= mailbox@.take(i as int));
            r
        },
        None => owned(mailbox),
    }
}

/// Whether a mailbox's actions say only to log its mail.
pub open spec fn log_only(actions: Seq<Seq<char>>) -> bool {
    actions.contains("log_only"@)
}

/// Whether the notification mailbox only logs its mail (no one is told).
pub fn is_log_only(config: &NotifyConfig) -> (r: bool)
    ensures
        r == log_only(config.actions@.map_values(|s: String| s@)),
{
    let ghost a = config.actions@.map_values(|s: String| s@);
    let mut i: usize = 0;
    while i < config.actions.len()
        invariant
            i <= config.actions@.len(),
            a == config.actions@.map_values(|s: String| s@),
            forall|k: int| 0 <= k < i ==> a[k] != "log_only"@,
        decreases config.actions.len() - i,
    {
        assert(a[i as int] == config.actions@[i as int]@);
        if str_eq(config.actions[i].as_str(), "log_only") {
            assert(a[i as int] == "log_only"@);
            return true;
        }
        i = i + 1;
    }
    false
}

// ----- the announcement ------------------------------------------------

/// The subject: `[PRIORITY] subject — New email in mailbox@`.
pub open spec fn notification_subject(priority: Seq<char>, subject: Seq<char>, mailbox: Seq<char>) -> Seq<
    char,
> {
    "["@ + upper_text(priority) + "] "@ + subject + " — New email in "@ + mailbox + "@"@
}

/// The announcement's subject.
pub fn notification_subject_text(priority: &str, subject: &str, mailbox_name: &str) -> (r: String)
    ensures
        r@ == notification_subject(priority@, subject@, mailbox_name@),
{
    let mut s = owned("[");
    append_string(&mut s, &to_upper(priority));
    s.append("] ");
    s.append(subject);
    s.append(" — New email in ");
    s.append(mailbox_name);
    s.append("@");
    s
}

/// The plain-text announcement.
pub open spec fn notification_plain(
    mailbox: Seq<char>,
    priority: Seq<char>,
    from: Seq<char>,
    subject: Seq<char>,
    preview: Seq<char>,
    tid: Seq<char>,
) -> Seq<char> {
    "New email in "@ + mailbox + "\nPriority: "@ + priority + "\n\nFrom: "@ + from + "\nSubject: "@
        + subject + "\n\nPreview:\n"@ + preview
        + "\n\n---\nAutomated notification from Mail Orchestrator\nTracking ID: "@ + tid
}

/// The plain-text announcement.
pub fn notification_plain_text(
    mailbox_name: &str,
    priority: &str,
    original_from: &str,
    original_subject: &str,
    body_preview: &str,
    tracking_id: &str,
) -> (r: String)
    ensures
        r@ == notification_plain(
            mailbox_name@,
            priority@,
            original_from@,
            original_subject@,
            body_preview@,
            tracking_id@,
        ),
{
    let mut s = owned("New email in ");
    s.append(mailbox_name);
    s.append("\nPriority: ");
    s.append(priority);
    s.append("\n\nFrom: ");
    s.append(original_from);
    s.append("\nSubject: ");
    s.append(original_subject);
    s.append("\n\nPreview:\n");
    s.append(body_preview);
    s.append("\n\n---\nAutomated notification from Mail Orchestrator\nTracking ID: ");
    s.append(tracking_id);
    s
}

/// The eyebrow for a priority (compared ignoring ASCII case): high,
/// urgent and p1 are high, low and p4 low, anything else a new message.
pub open spec fn priority_label(p: Seq<char>) -> Seq<char> {
    let l = ascii_lower_seq(p);
    if l == "high"@ || l == "urgent"@ || l == "p1"@ {
        "High priority"@
    } else if l == "low"@ || l == "p4"@ {
        "Low priority"@
    } else {
        "New message"@
    }
}

/// The eyebrow for a priority.
pub fn priority_pretty(priority: &str) -> (r: &'static str)
    ensures
        r@ == priority_label(priority@),
{
    let l = string_of(&ascii_lower_chars(&chars_of(priority)));
    let s = l.as_str();
    if str_eq(s, "high") || str_eq(s, "urgent") || str_eq(s, "p1") {
        "High priority"
    } else if str_eq(s, "low") || str_eq(s, "p4") {
        "Low priority"
    } else {
        "New message"
    }
}

/// The preview as shown in HTML: at most 480 characters, an ellipsis
/// marking a cut.
pub open spec fn shown_preview(p: Seq<char>) -> Seq<char> {
    if p.len() > 480 {
        p.take(480).push('…')
    } else {
        p
    }
}

/// The preview as shown in HTML.
pub fn truncate_preview(preview: &str) -> (r: String)
    ensures
        r@ == shown_preview(preview@),
{
    let v = chars_of(preview);
    if v.len() > 480 {
        let mut s = string_of(&slice_chars(&v, 0, 480));
        push_char(&mut s, '…');
        assert(v@.subrange(0, 480) =~= v@.take(480));
        s
    } else {
        string_of(&v)
    }
}

/// The announcement as a document. `subject` and `subtitle` differ
/// between the two HTML forms; the rest is shared.
pub open spec fn announcement_doc(
    subject: Seq<char>,
    subtitle: Option<Seq<char>>,
    mailbox: Seq<char>,
    priority: Seq<char>,
    from: Seq<char>,
    original_subject: Seq<char>,
    preview: Seq<char>,
    tid: Seq<char>,
) -> DocV {
    DocV {
        subject,
        preheader: "From "@ + from + ": "@ + original_subject,
        eyebrow: Some(priority_label(priority)),
        heading: original_subject,
        intro: Some(
            "A new message arrived in "@ + mailbox
                + ". Preview below — open the mailbox to read the full message."@,
        ),
        blocks: seq![
            BlockV::Group(
                GroupV {
                    eyebrow: "Sender"@,
                    title: from,
                    subtitle,
                    body: BodyV::Fields(
                        seq![
                            FieldV { label: "Mailbox"@, value: mailbox, mono: true },
                            FieldV { label: "Priority"@, value: priority, mono: false },
                        ],
                    ),
                    how_to: None,
                },
            ),
            BlockV::Paragraph(shown_preview(preview)),
        ],
        footer_lines: seq!["Tracking ID: "@ + tid],
    }
}

fn announcement(
    subject: String,
    subtitle: Option<String>,
    mailbox: &str,
    priority: &str,
    from: &str,
    original_subject: &str,
    preview: &str,
    tid: &str,
) -> (d: EmailDocument)
    ensures
        doc_view(d) == announcement_doc(
            subject@,
            crate::templates::document::opt_view(subtitle),
            mailbox@,
            priority@,
            from@,
            original_subject@,
            preview@,
            tid@,
        ),
{
    let ghost sv = crate::templates::document::opt_view(subtitle);
    let fs = vec![field("Mailbox", owned(mailbox), true), field("Priority", owned(priority), false)];
    assert(fs@.map_values(|f: Field| field_view(f)) =~= seq![
        FieldV { label: "Mailbox"@, value: mailbox@, mono: true },
        FieldV { label: "Priority"@, value: priority@, mono: false },
    ]);
    let card = fields_group(owned("Sender"), owned(from), subtitle, fs);
    let para = paragraph(truncate_preview(preview));
    let blocks = vec![card, para];
    let mut preheader = owned("From ");
    preheader.append(from);
    preheader.append(": ");
    preheader.append(original_subject);
    let mut intro = owned("A new message arrived in ");
    intro.append(mailbox);
    intro.append(". Preview below — open the mailbox to read the full message.");
    let mut footer = owned("Tracking ID: ");
    footer.append(tid);
    let footer_lines = vec![footer];
    let d = EmailDocument {
        subject,
        preheader,
        eyebrow: Some(owned(priority_pretty(priority))),
        heading: owned(original_subject),
        intro: Some(intro),
        blocks,
        footer_lines,
    };
    assert(doc_view(d).blocks =~= announcement_doc(
        d.subject@,
        sv,
        mailbox@,
        priority@,
        from@,
        original_subject@,
        preview@,
        tid@,
    ).blocks);
    assert(doc_view(d).footer_lines =~= seq![footer@]);
    d
}

/// The branded announcement sent beside the plain text.
pub fn notification_document(
    mailbox_name: &str,
    priority: &str,
    original_from: &str,
    original_subject: &str,
    body_preview: &str,
    tracking_id: &str,
) -> (d: EmailDocument)
    ensures
        doc_view(d) == announcement_doc(
            original_subject@,
            None,
            mailbox_name@,
            priority@,
            original_from@,
            original_subject@,
            body_preview@,
            tracking_id@,
        ),
{
    announcement(
        owned(original_subject),
        None,
        mailbox_name,
        priority,
        original_from,
        original_subject,
        body_preview,
        tracking_id,
    )
}

/// The branded announcement that accompanies the template-rendered plain
/// text: its subject names the mailbox and its sender card the date.
pub fn polished_notification_document(
    mailbox: &str,
    priority: &str,
    original_from: &str,
    original_subject: &str,
    original_date: &str,
    body_preview: &str,
    tracking_id: &str,
) -> (d: EmailDocument)
    ensures
        doc_view(d) == announcement_doc(
            "["@ + mailbox@ + "] "@ + original_subject@,
            Some("Sent "@ + original_date@),
            mailbox@,
            priority@,
            original_from@,
            original_subject@,
            body_preview@,
            tracking_id@,
        ),
{
    let mut subject = owned("[");
    subject.append(mailbox);
    subject.append("] ");
    subject.append(original_subject);
    let mut subtitle = owned("Sent ");
    subtitle.append(original_date);
    announcement(
        subject,
        Some(subtitle),
        mailbox,
        priority,
        original_from,
        original_subject,
        body_preview,
        tracking_id,
    )
}

/// Whether `s` is document `d` rendered under theme `t`.
pub open spec fn shows(d: EmailDocument, t: Theme, s: Seq<char>) -> bool {
    s == html_document(d, t@)
}

/// The HTML alternative of a notification: the announcement rendered
/// under the PlausiDen theme.
pub fn build_notification_html(
    mailbox_name: &str,
    priority: &str,
    original_from: &str,
    original_subject: &str,
    body_preview: &str,
    tracking_id: &str,
) -> (r: String)
    ensures
        exists|d: EmailDocument, t: Theme|
            #[trigger] shows(d, t, r@) && is_plausiden(t) && doc_view(d) == announcement_doc(
                original_subject@,
                None,
                mailbox_name@,
                priority@,
                original_from@,
                original_subject@,
                body_preview@,
                tracking_id@,
            ),
{
    let d = notification_document(
        mailbox_name,
        priority,
        original_from,
        original_subject,
        body_preview,
        tracking_id,
    );
    let t = Theme::plausiden();
    let r = crate::templates::render_html::render(&d, &t);
    assert(shows(d, t, r@));
    r
}

/// A sender as an address header value: `Name <address>` with a display
/// name, the bare address without.
pub open spec fn mailbox_header(from: Seq<char>, name: Option<Seq<char>>) -> Seq<char> {
    match name {
        Some(n) => n + " <"@ + from + ">"@,
        None => from,
    }
}

/// A sender as an address header value.
pub fn mailbox_header_text(from: &str, from_name: Option<&str>) -> (r: String)
    ensures
        r@ == mailbox_header(
            from@,
            match from_name {
                Some(n) => Some(n@),
                None => None,
            },
        ),
{
    match from_name {
        Some(n) => {
            let mut s = owned(n);
            s.append(" <");
            s.append(from);
            s.append(">");
            s
        },
        None => owned(from),
    }
}

} // verus!
