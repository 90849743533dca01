use mailroom::orchestrator::config::{
    Config, DaemonConfig, Dispatch, DomainConfig, NotifyConfig, RouterConfig, TemplateConfig,
    WatchEvent, default_log_level, default_priority, default_smtp_host, default_smtp_port, default_true, delivers,
    skipped_file_name,
};
use mailroom::orchestrator::notify::{
    build_notification_html, is_log_only, mailbox_header_text, mailbox_local_name,
    notification_document, notification_plain_text, notification_subject_text,
    polished_notification_document, priority_pretty, truncate_preview,
};
use mailroom::orchestrator::parser::{ParsedEmail, parse_email};
use mailroom::orchestrator::router::{RouterError, RouterPlan, parse_command, plan_router_command};
use mailroom::orchestrator::schedule::{DueAction, ScheduledEmail, pad_cron};

fn notify(mailbox: &str, maildir: &str, actions: &[&str]) -> NotifyConfig {
    NotifyConfig {
        mailbox: mailbox.into(),
        maildir: maildir.into(),
        subscribers: vec!["tim@sacred.vote".into()],
        priority: "high".into(),
        actions: actions.iter().map(|s| s.to_string()).collect(),
    }
}

fn config() -> Config {
    Config {
        daemon: DaemonConfig {
            pid_file: "/run/mo.pid".into(),
            db_path: "/var/lib/mo.db".into(),
            log_level: "info".into(),
        },
        domain: DomainConfig {
            name: "sacred.vote".into(),
            mail_base: "/var/mail/vhosts".into(),
            smtp_host: "127.0.0.1".into(),
            smtp_port: 25,
        },
        router: RouterConfig {
            mailbox: "router@sacred.vote".into(),
            maildir: "/var/mail/vhosts/sacred.vote/router/new".into(),
            authorized_senders: vec!["Tim@Sacred.Vote".into()],
            allowed_from: vec!["noreply@sacred.vote".into()],
        },
        templates: TemplateConfig { dir: "/etc/mo/templates".into() },
        notify: vec![
            ("support".into(), notify("support@sacred.vote", "/var/mail/vhosts/sacred.vote/support/new", &[])),
            ("noreply".into(), notify("noreply@sacred.vote", "/var/mail/vhosts/sacred.vote/noreply/new", &["log_only"])),
        ],
        schedule: vec![],
    }
}

fn email(from: &str, body: &str) -> ParsedEmail {
    ParsedEmail {
        message_id: "<m1@x>".into(),
        from: from.into(),
        to: "router@sacred.vote".into(),
        subject: "cmd".into(),
        date: String::new(),
        body_text: body.into(),
        body_preview: String::new(),
        has_attachments: false,
        attachment_names: vec![],
        raw_path: "/tmp/x".into(),
    }
}

#[test]
fn defaults_match_the_documented_values() {
    assert_eq!(default_log_level(), "info");
    assert_eq!(default_smtp_host(), "127.0.0.1");
    assert_eq!(default_smtp_port(), 25);
    assert_eq!(default_priority(), "normal");
    assert!(default_true());
}

#[test]
fn watch_paths_lists_router_then_notify_mailboxes() {
    let c = config();
    let paths = c.watch_paths();
    assert_eq!(paths.len(), 3);
    assert_eq!(paths[0], ("router".to_string(), "/var/mail/vhosts/sacred.vote/router/new".to_string()));
    assert_eq!(paths[1].0, "support");
    assert_eq!(paths[2].1, "/var/mail/vhosts/sacred.vote/noreply/new");
}

#[test]
fn identify_mailbox_by_maildir_substring() {
    let c = config();
    assert_eq!(
        c.identify_mailbox("/var/mail/vhosts/sacred.vote/router/new/1714.M1.host").as_deref(),
        Some("router")
    );
    assert_eq!(
        c.identify_mailbox("/var/mail/vhosts/sacred.vote/support/new/1714.M2.host").as_deref(),
        Some("support")
    );
    assert_eq!(c.identify_mailbox("/tmp/elsewhere/1"), None);
}

#[test]
fn dispatch_routes_router_and_known_notify_mailboxes() {
    let c = config();
    assert_eq!(c.dispatch("router"), Dispatch::Router);
    assert_eq!(c.dispatch("noreply"), Dispatch::Notify(1));
    assert_eq!(c.dispatch("unknown"), Dispatch::Ignore);
    assert_eq!(c.alerts_from(), "alerts@sacred.vote");
}

#[test]
fn dotfiles_and_nameless_files_are_skipped() {
    assert!(skipped_file_name(None));
    assert!(skipped_file_name(Some(".tmp")));
    assert!(!skipped_file_name(Some("1714.M1.host")));
    assert!(!skipped_file_name(Some("")));
}

#[test]
fn parse_command_reads_all_fields() {
    let body = "TO: someone@example.com\nFROM: admin@sacredvote.org\nSUBJECT: Your account has been verified\nTEMPLATE: account_verified\nVARS: name=John, date=2026-04-02\nSCHEDULE: 2026-04-03T09:00:00Z\n---\nLine one\nLine two\n\n";
    let c = parse_command(body).unwrap();
    assert_eq!(c.to, "someone@example.com");
    assert_eq!(c.from, "admin@sacredvote.org");
    assert_eq!(c.subject, "Your account has been verified");
    assert_eq!(c.template.as_deref(), Some("account_verified"));
    assert_eq!(c.schedule.as_deref(), Some("2026-04-03T09:00:00Z"));
    assert_eq!(c.var("name"), Some("John"));
    assert_eq!(c.var("date"), Some("2026-04-02"));
    assert_eq!(c.var("missing"), None);
    assert_eq!(c.body, "Line one\nLine two");
}

#[test]
fn parse_command_later_var_replaces_earlier() {
    let c = parse_command("TO: a@x\nFROM: b@x\nSUBJECT: s\nVARS: k=1, j=2\nVARS: k=3, nonsense\n").unwrap();
    assert_eq!(c.vars, vec![("k".to_string(), "3".to_string()), ("j".to_string(), "2".to_string())]);
}

#[test]
fn parse_command_requires_to_from_subject_in_that_order() {
    assert_eq!(parse_command("FROM: a@x\nSUBJECT: s").unwrap_err(), RouterError::MissingTo);
    assert_eq!(parse_command("TO: a@x\nSUBJECT: s").unwrap_err(), RouterError::MissingFrom);
    assert_eq!(parse_command("TO: a@x\nFROM: b@x").unwrap_err(), RouterError::MissingSubject);
    assert_eq!(RouterError::MissingTo.message(), "Router command missing TO: field");
}

#[test]
fn parse_command_ignores_unknown_keys_and_empty_values() {
    // `TO:` with nothing after it does not match; `TOX:` is not a key;
    // fields after `---` are body.
    let r = parse_command("TO:\nTOX: a@x\n   FROM: b@x   \nSUBJECT: s\n---\nTO: c@x");
    assert_eq!(r.unwrap_err(), RouterError::MissingTo);
    let c = parse_command("  TO:   a@x  \nFROM:b@x\nSUBJECT: s\nATTACH: f.pdf\n---\nTO: c@x").unwrap();
    assert_eq!(c.to, "a@x");
    assert_eq!(c.from, "b@x");
    assert_eq!(c.body, "TO: c@x");
}

#[test]
fn unauthorized_sender_is_rejected() {
    let d = plan_router_command(&email("Eve <eve@evil.test>", "TO: a@x"), &config().router, "t-1");
    assert_eq!(d.sender_addr, "eve@evil.test");
    assert!(matches!(d.plan, RouterPlan::Reject));
}

#[test]
fn unparsable_command_gets_error_reply() {
    let d = plan_router_command(&email("Tim <TIM@sacred.vote>", "hello"), &config().router, "t-2");
    assert_eq!(d.sender_addr, "tim@sacred.vote");
    match d.plan {
        RouterPlan::Unparsable { reply_subject, reply } => {
            assert_eq!(reply_subject, "Router Command Failed");
            assert_eq!(
                reply,
                "Your router command could not be parsed.\n\nError: Router command missing TO: field\n\nTracking ID: t-2"
            );
        }
        other => panic!("unexpected {other:?}"),
    }
}

#[test]
fn disallowed_identity_is_refused() {
    let body = "TO: a@x\nFROM: ceo@sacred.vote\nSUBJECT: s";
    let d = plan_router_command(&email("tim@sacred.vote", body), &config().router, "t-3");
    match d.plan {
        RouterPlan::FromNotAllowed { reply_subject, reply } => {
            assert_eq!(reply_subject, "Router Command Rejected");
            assert_eq!(
                reply,
                "Identity 'ceo@sacred.vote' is not in the allowed sender list.\n\nTracking ID: t-3"
            );
        }
        other => panic!("unexpected {other:?}"),
    }
}

#[test]
fn scheduled_command_is_queued_with_acknowledgement() {
    let body = "TO: v@x\nFROM: NoReply@Sacred.Vote\nSUBJECT: Receipt\nSCHEDULE: 2026-04-06 08:00:00";
    let d = plan_router_command(&email("tim@sacred.vote", body), &config().router, "t-4");
    match d.plan {
        RouterPlan::Schedule { command, at, body, ack_subject, ack_body } => {
            assert_eq!(command.to, "v@x");
            assert_eq!(at, "2026-04-06 08:00:00");
            assert_eq!(body, "(template-based email)");
            assert_eq!(ack_subject, "Scheduled: Receipt");
            assert_eq!(
                ack_body,
                "Your email has been scheduled.\n\nFrom: NoReply@Sacred.Vote\nTo: v@x\nSubject: Receipt\nScheduled: 2026-04-06 08:00:00\n\nTracking ID: t-4"
            );
        }
        other => panic!("unexpected {other:?}"),
    }
}

#[test]
fn immediate_command_is_sent_with_its_body() {
    let body = "TO: v@x\nFROM: noreply@sacred.vote\nSUBJECT: Hi\n---\nHello there";
    let d = plan_router_command(&email("tim@sacred.vote", body), &config().router, "t-5");
    match d.plan {
        RouterPlan::Send { body, ack_subject, ack_body, .. } => {
            assert_eq!(body, "Hello there");
            assert_eq!(ack_subject, "Sent: Hi");
            assert_eq!(
                ack_body,
                "Your email has been sent.\n\nFrom: noreply@sacred.vote\nTo: v@x\nSubject: Hi\n\nTracking ID: t-5"
            );
        }
        other => panic!("unexpected {other:?}"),
    }
    let d = plan_router_command(
        &email("tim@sacred.vote", "TO: v@x\nFROM: noreply@sacred.vote\nSUBJECT: Hi"),
        &config().router,
        "t-6",
    );
    match d.plan {
        RouterPlan::Send { body, .. } => assert_eq!(body, "(no body provided)"),
        other => panic!("unexpected {other:?}"),
    }
}

#[test]
fn parse_email_reads_headers_body_and_attachments() {
    let raw = b"Message-ID: <abc@x>\r\nFrom: Alice Example <alice@example.com>\r\nTo: support@sacred.vote\r\nSubject: Help\r\nDate: Fri, 01 May 2026 15:13:26 +0000\r\nMIME-Version: 1.0\r\nContent-Type: multipart/mixed; boundary=\"B\"\r\n\r\n--B\r\nContent-Type: text/plain\r\n\r\nI can't find my voter code\r\n--B\r\nContent-Type: application/pdf\r\nContent-Disposition: attachment; filename=\"receipt.pdf\"\r\n\r\nJVBERi0=\r\n--B--\r\n";
    let e = parse_email(raw, "/var/mail/new/1").unwrap();
    assert_eq!(e.message_id, "abc@x");
    assert_eq!(e.from, "Alice Example <alice@example.com>");
    assert_eq!(e.to, "support@sacred.vote");
    assert_eq!(e.subject, "Help");
    assert!(e.date.starts_with("2026-05-01T15:13:26"));
    assert!(e.body_text.contains("voter code"));
    assert_eq!(e.body_preview, e.body_text);
    assert!(e.has_attachments);
    assert_eq!(e.attachment_names, vec!["receipt.pdf".to_string()]);
    assert_eq!(e.raw_path, "/var/mail/new/1");
}

#[test]
fn parse_email_defaults_and_preview_cut() {
    let mut raw = b"From: bob@example.com\r\n\r\n".to_vec();
    raw.extend(std::iter::repeat(b'y').take(300));
    let e = parse_email(&raw, "p").unwrap();
    assert_eq!(e.message_id, "unknown");
    assert_eq!(e.from, "bob@example.com");
    assert_eq!(e.subject, "(no subject)");
    assert_eq!(e.to, "");
    assert_eq!(e.body_preview.chars().count(), 200);
    assert!(!e.has_attachments);
}

#[test]
fn notification_texts_are_exact() {
    assert_eq!(
        notification_subject_text("high", "Need help", "support"),
        "[HIGH] Need help — New email in support@"
    );
    assert_eq!(
        notification_plain_text("support", "high", "v@x", "Need help", "preview", "id-1"),
        "New email in support\nPriority: high\n\nFrom: v@x\nSubject: Need help\n\nPreview:\npreview\n\n---\nAutomated notification from Mail Orchestrator\nTracking ID: id-1"
    );
    assert_eq!(mailbox_local_name("support@sacred.vote"), "support");
    assert_eq!(mailbox_local_name("plain"), "plain");
    assert_eq!(mailbox_header_text("a@x", Some("Mail Orchestrator")), "Mail Orchestrator <a@x>");
    assert_eq!(mailbox_header_text("a@x", None), "a@x");
}

#[test]
fn priority_labels_and_preview_cut() {
    assert_eq!(priority_pretty("URGENT"), "High priority");
    assert_eq!(priority_pretty("p4"), "Low priority");
    assert_eq!(priority_pretty("normal"), "New message");
    let long = "x".repeat(1000);
    let cut = truncate_preview(&long);
    assert_eq!(cut.chars().count(), 481);
    assert!(cut.ends_with("x…"));
    assert_eq!(truncate_preview("short"), "short");
}

#[test]
fn log_only_mailbox_tells_no_one() {
    assert!(is_log_only(&notify("n@x", "/d", &["log_only"])));
    assert!(!is_log_only(&notify("n@x", "/d", &["page"])));
}

#[test]
fn polished_notification_html_has_chrome_and_truncation() {
    let d = polished_notification_document(
        "support@sacred.vote",
        "high",
        "voter@example.com",
        "Need help with voting",
        "2026-04-05 12:00:00",
        "I can't find my voter code...",
        "abc-123",
    );
    assert_eq!(d.subject, "[support@sacred.vote] Need help with voting");
    let html = d.render_html();
    assert!(html.contains("<!DOCTYPE html>"));
    assert!(html.contains("voter@example.com"));
    assert!(html.contains("Tracking ID: abc-123"));
    assert!(html.contains("High priority"));
    assert!(!html.contains("<style"));
    let long = "x".repeat(1000);
    let d2 = notification_document("m@x", "low", "f@x", "subj", &long, "id");
    let html2 = d2.render_html();
    assert!(html2.contains("xxxx…"));
    assert!(!html2.contains(&"x".repeat(500)));
    let built = build_notification_html("m@x", "low", "f@x", "subj", "short preview", "id");
    assert!(built.contains("Low priority"));
    assert!(built.contains("short preview"));
}

#[test]
fn cron_padding_and_after_send() {
    assert_eq!(pad_cron("*/5 * * * *"), "0 */5 * * * *");
    assert_eq!(pad_cron("0 0 9 * * Mon *"), "0 0 9 * * Mon *");
    let mut e = ScheduledEmail {
        id: 1,
        tracking_id: "t".into(),
        from_addr: "a@x".into(),
        to_addr: "b@x".into(),
        subject: "s".into(),
        body: "b".into(),
        template: None,
        template_vars: None,
        scheduled_at: "2026-01-01T00:00:00Z".into(),
        cron_expr: Some("0 9 * * *".into()),
        is_recurring: true,
    };
    assert_eq!(e.recurrence(), Some("0 9 * * *"));
    assert_eq!(
        e.after_send(Some("2026-01-02T09:00:00+00:00".into())),
        DueAction::Reschedule("2026-01-02T09:00:00+00:00".into())
    );
    assert_eq!(e.after_send(None), DueAction::MarkSent);
    e.is_recurring = false;
    assert_eq!(e.recurrence(), None);
    assert_eq!(e.after_send(Some("x".into())), DueAction::MarkSent);
}

#[test]
fn every_plan_records_the_inbound_mail() {
    let refused = plan_router_command(
        &email("tim@sacred.vote", "TO: a@x\nFROM: ceo@sacred.vote\nSUBJECT: s"),
        &config().router,
        "t-9",
    );
    assert!(matches!(refused.plan, RouterPlan::FromNotAllowed { .. }));
    assert_eq!(refused.plan.inbound_status(), "rejected");
    let stranger = plan_router_command(&email("eve@evil.test", "TO: a@x"), &config().router, "t-9");
    assert_eq!(stranger.plan.inbound_status(), "rejected");
    let unreadable = plan_router_command(&email("tim@sacred.vote", "hello"), &config().router, "t-9");
    assert_eq!(unreadable.plan.inbound_status(), "failed");
    let queued = plan_router_command(
        &email("tim@sacred.vote", "TO: v@x\nFROM: NoReply@Sacred.Vote\nSUBJECT: R\nSCHEDULE: 2026-04-06 08:00:00"),
        &config().router,
        "t-9",
    );
    assert_eq!(queued.plan.inbound_status(), "processing");
}

#[test]
fn only_creations_and_renames_in_are_deliveries() {
    assert!(delivers(WatchEvent::Create));
    assert!(delivers(WatchEvent::RenameTo));
    assert!(delivers(WatchEvent::RenameAny));
    assert!(!delivers(WatchEvent::Other));
}
