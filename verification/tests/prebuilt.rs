use mailroom::templates::prebuilt::{
    AlertSeverity, BounceReason, DigestRow, DnsGroup, DnsRecord, FeedbackSection, ShipmentStatus,
    alert, bounce, dns_records, email_verification, feedback_received, inquiry_received,
    magic_link, password_reset, shipping_notification, weekly_digest,
};
use mailroom::templates::{Block, Field, GroupBody};

#[test]
fn dns_records_renders_each_record_as_individual_card() {
    let groups = vec![DnsGroup {
        eyebrow: "Group 1 · Salesman".into(),
        title: "outreach.plausiden.com sender domain".into(),
        subtitle: None,
        records: vec![
            DnsRecord {
                host: "outreach".into(),
                record_type: "A".into(),
                value: "207.246.86.218".into(),
                note: None,
            },
            DnsRecord {
                host: "outreach._domainkey.outreach".into(),
                record_type: "TXT".into(),
                value: "v=DKIM1; ...".into(),
                note: Some("One continuous string.".into()),
            },
        ],
        how_to: Some("Then run <code>dig +short</code>.".into()),
    }];
    let doc = dns_records(groups, vec!["dig +short A example.com".into()]);
    let html = doc.render_html();
    // Each record is its own bordered card.
    assert!(html.contains("Record 1 of 2"));
    assert!(html.contains("Record 2 of 2"));
    // Type tag pill
    assert!(html.contains(">TXT<"));
    // Note rendered
    assert!(html.contains("One continuous string"));
    // Verification block
    assert!(html.contains("dig +short A example.com"));
    // Plain text mirrors structure
    let plain = doc.render_plain();
    assert!(plain.contains("Record 1 of 2"));
    assert!(plain.contains("[A]"));
}

#[test]
fn bounce_user_unknown_explains_clearly() {
    let doc = bounce(
        "team@plausiden.com",
        "William@plausiden.com",
        BounceReason::UserUnknown,
        "550 5.1.1 user unknown",
        "Test mail",
    );
    let html = doc.render_html();
    assert!(html.contains("Recipient address doesn"));
    assert!(html.contains("550 5.1.1 user unknown"));
    assert!(html.contains("William@plausiden.com"));
}

#[test]
fn magic_link_includes_link_in_button_and_fallback() {
    let url = "https://plausiden.com/admin/login/verify?token=abc";
    let doc = magic_link(url);
    let html = doc.render_html();
    // Once in the CTA href, once in the fallback Field
    assert!(html.matches(url).count() >= 2);
}

#[test]
fn shipping_out_for_delivery_renders_carrier_and_tracking() {
    let doc = shipping_notification(
        "UPS",
        "1Z9999W99999999999",
        ShipmentStatus::OutForDelivery,
        Some("Today by 8 PM"),
        Some("https://wwwapps.ups.com/tracking/tracking.cgi?tracknum=1Z..."),
    );
    let html = doc.render_html();
    assert_eq!(doc.subject, "[UPS] Your UPS package is out for delivery");
    assert!(html.contains("Out for delivery"));
    assert!(html.contains("1Z9999W99999999999"));
    assert!(html.contains("Today by 8 PM"));
    assert!(html.contains("Track shipment"));
}

#[test]
fn shipping_exception_includes_diagnostic_paragraph() {
    let doc = shipping_notification(
        "FedEx",
        "FX12345",
        ShipmentStatus::Exception,
        None,
        None,
    );
    let html = doc.render_html();
    assert!(html.contains("Exception · action needed"));
    assert!(html.contains("delivery exception"));
    // No CTA when no URL
    assert!(!html.contains("Track shipment"));
}

#[test]
fn shipping_delivered_omits_eta_when_not_provided() {
    let doc = shipping_notification(
        "USPS",
        "9405...",
        ShipmentStatus::Delivered,
        None,
        None,
    );
    let html = doc.render_html();
    assert!(html.contains("Delivered"));
    assert!(!html.contains("Expected"));
}

#[test]
fn password_reset_renders_link_and_expiry_copy() {
    let url = "https://plausiden.com/reset?t=abc";
    let doc = password_reset(url, 15);
    let html = doc.render_html();
    assert_eq!(doc.subject, "Reset your PlausiDen password");
    // Expiry minutes appear in body
    assert!(html.contains("15 minutes"));
    // Link in CTA + fallback (so at least 2 occurrences)
    assert!(html.matches(url).count() >= 2);
}

#[test]
fn password_reset_escapes_pathological_url() {
    let url = "https://x.com/?<script>";
    let doc = password_reset(url, 15);
    let html = doc.render_html();
    assert!(!html.contains("?<script>"));
    assert!(html.contains("&lt;script&gt;"));
}

#[test]
fn email_verification_uses_hours_window() {
    let url = "https://plausiden.com/verify?t=xyz";
    let doc = email_verification(url, 24);
    assert_eq!(doc.subject, "Confirm your email — PlausiDen");
    let html = doc.render_html();
    assert!(html.contains("24 hours"));
    assert!(html.matches(url).count() >= 2);
    // Eyebrow + heading
    assert!(html.contains("Email verification"));
}

#[test]
fn magic_link_escapes_angle_brackets_in_url() {
    // Pathological URL: should not break out of the href attribute.
    let url = "https://example.com/?x=<script>";
    let doc = magic_link(url);
    let html = doc.render_html();
    assert!(!html.contains("?x=<script>"));
    assert!(html.contains("&lt;script&gt;"));
}

#[test]
fn alert_critical_includes_severity_eyebrow_and_runbook_cta() {
    let doc = alert(
        AlertSeverity::Critical,
        "Disk usage 95% on web-01",
        "The /var partition has crossed the 95% high-water mark. \
         Mail delivery will stall once it hits 100%.",
        vec![
            Field {
                label: "Host".into(),
                value: "web-01".into(),
                mono: true,
            },
            Field {
                label: "Mountpoint".into(),
                value: "/var".into(),
                mono: true,
            },
            Field {
                label: "Used".into(),
                value: "95%".into(),
                mono: false,
            },
        ],
        Some("https://runbooks.plausiden.com/disk-full"),
        Some("oncall@plausiden.com"),
    );
    let html = doc.render_html();
    // Severity eyebrow
    assert!(html.contains("Critical · page"));
    // Subject prefix
    assert_eq!(doc.subject, "[CRITICAL] Disk usage 95% on web-01");
    // Fields rendered
    assert!(html.contains("web-01"));
    assert!(html.contains("/var"));
    // Runbook CTA
    assert!(html.contains("Open runbook"));
    assert!(html.contains("https://runbooks.plausiden.com/disk-full"));
    // On-call footer
    assert!(html.contains("oncall@plausiden.com"));
}

#[test]
fn alert_info_skips_runbook_cta_when_not_provided() {
    let doc = alert(
        AlertSeverity::Info,
        "Daily backup completed",
        "Nightly rsync of /var/mail/vhosts to off-site target completed cleanly.",
        vec![Field {
            label: "Duration".into(),
            value: "8 min".into(),
            mono: false,
        }],
        None,
        None,
    );
    let html = doc.render_html();
    assert_eq!(doc.subject, "[INFO] Daily backup completed");
    assert!(html.contains("Daily backup completed"));
    // No runbook CTA when URL is absent.
    assert!(!html.contains("Open runbook"));
    // Default on-call line falls back to the team@ contact.
    assert!(html.contains("team@plausiden.com"));
}

#[test]
fn feedback_received_renders_sender_and_sections() {
    let doc = feedback_received(
        42,
        "Tim Porter",
        "tim@example.com",
        "Sacred.Vote",
        "full",
        vec![
            FeedbackSection {
                label: "What worked well".into(),
                body: "the explainer".into(),
            },
            FeedbackSection {
                label: "What didn't".into(),
                body: String::new(), // skipped
            },
            FeedbackSection {
                label: "Why chose PlausiDen".into(),
                body: "the audit trail".into(),
            },
        ],
        Some("https://plausiden.com/admin/feedback"),
    );
    let html = doc.render_html();
    assert_eq!(doc.subject, "[feedback #42] Tim Porter");
    assert!(html.contains("Tim Porter"));
    assert!(html.contains("Sacred.Vote"));
    assert!(html.contains("the explainer"));
    assert!(html.contains("the audit trail"));
    // Empty section dropped
    assert!(!html.contains("What didn"));
    // Admin CTA
    assert!(html.contains("View in admin"));
    assert!(html.contains("/admin/feedback"));
}

#[test]
fn feedback_received_handles_no_sections_gracefully() {
    let doc = feedback_received(7, "anon", "a@x", "", "", vec![], None);
    let html = doc.render_html();
    assert!(html.contains("No long-form answers"));
    // No CTA when admin URL omitted
    assert!(!html.contains("View in admin"));
}

#[test]
fn inquiry_received_has_reply_cta_with_mailto() {
    let doc = inquiry_received(
        "Mallory",
        "m@example.com",
        "555-1234",
        "Acme",
        "DR retainer",
        "We need a DR posture review by EOQ.",
    );
    let html = doc.render_html();
    assert_eq!(doc.subject, "Inquiry from Mallory");
    assert!(html.contains("Reply to Mallory"));
    assert!(html.contains("mailto:m@example.com"));
    // Field values flow through
    assert!(html.contains("555-1234"));
    assert!(html.contains("Acme"));
    assert!(html.contains("DR retainer"));
    assert!(html.contains("DR posture review"));
}

#[test]
fn inquiry_received_renders_omitted_for_empty_optional_fields() {
    let doc = inquiry_received("Anon", "a@x", "", "", "", "Hi");
    let html = doc.render_html();
    assert!(html.contains("(omitted)"));
}

#[test]
fn inquiry_received_escapes_message_body() {
    // Pathological message body — escape pass must hold.
    let doc = inquiry_received(
        "Mallory",
        "m@x.com",
        "",
        "",
        "",
        "<img src=x onerror=alert(1)>",
    );
    let html = doc.render_html();
    assert!(!html.contains("<img src=x"));
    assert!(html.contains("&lt;img src=x"));
}

#[test]
fn weekly_digest_renders_each_row_as_record_card() {
    let doc = weekly_digest(
        "Week of 2026-04-28",
        "42 new messages, 3 require attention",
        vec![
            DigestRow {
                category: "Inbox".into(),
                count: 12,
                caption: Some("3 unread".into()),
            },
            DigestRow {
                category: "Important".into(),
                count: 3,
                caption: Some("all replied".into()),
            },
            DigestRow {
                category: "Updates".into(),
                count: 27,
                caption: None,
            },
        ],
        vec!["Top sender this week: GitHub.".into()],
    );
    let html = doc.render_html();
    assert_eq!(doc.subject, "Digest · Week of 2026-04-28");
    // Period in subtitle, headline in title
    assert!(html.contains("Week of 2026-04-28"));
    assert!(html.contains("42 new messages"));
    // Each row is its own bordered card
    assert!(html.contains("Row 1 of 3"));
    assert!(html.contains("Row 3 of 3"));
    // Type-tag pill carries the count
    assert!(html.contains(">12<"));
    assert!(html.contains(">27<"));
    // Caption for absent → empty value, not crash
    // Extra paragraph appears below
    assert!(html.contains("Top sender this week"));
}

#[test]
fn feedback_sections_become_one_card_each() {
    let doc = feedback_received(
        3,
        "Ann",
        "a@x",
        "",
        "",
        vec![
            FeedbackSection { label: "Q1".into(), body: "yes".into() },
            FeedbackSection { label: "Q2".into(), body: "  ".into() },
        ],
        None,
    );
    assert_eq!(doc.blocks.len(), 2);
    match &doc.blocks[1] {
        Block::Group(g) => {
            assert_eq!(g.eyebrow, "Q1");
            assert_eq!(g.title, "");
            match &g.body {
                GroupBody::Fields { fields } => {
                    assert_eq!(fields.len(), 1);
                    assert_eq!(fields[0].label, "Answer");
                    assert_eq!(fields[0].value, "yes");
                    assert!(!fields[0].mono);
                }
                other => panic!("unexpected body {other:?}"),
            }
        }
        other => panic!("unexpected block {other:?}"),
    }
}
