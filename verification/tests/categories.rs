use mailroom::config::categories::{
    Action, CategoryRules, MessageContext, SieveEmitOptions, sieve_escape,
};

fn ctx<'a>(
    headers: &'a [(String, String)],
    from: &'a str,
    subj: &'a str,
) -> MessageContext<'a> {
    MessageContext {
        headers,
        from_address: from,
        subject: subj,
    }
}

#[test]
fn github_email_routes_to_updates() {
    let rules = CategoryRules::default();
    let h = vec![];
    let hits = rules.evaluate(&ctx(&h, "noreply@github.com", "PR opened"));
    assert!(!hits.is_empty(), "no rule fired");
    let names: Vec<_> = hits.iter().map(|r| r.id.as_str()).collect();
    assert!(names.contains(&"updates_senders"), "got {names:?}");
}

#[test]
fn github_with_list_unsubscribe_still_routes_to_updates() {
    let rules = CategoryRules::default();
    let h = vec![("list-unsubscribe".into(), "<mailto:unsub@github.com>".into())];
    let hits = rules.evaluate(&ctx(&h, "notifications@github.com", "[repo] Run failed: ci"));
    let first = hits.first().expect("a rule fires");
    assert_eq!(
        first.id, "updates_senders",
        "GitHub mail with List-Unsubscribe must still go to Updates, got {}",
        first.id
    );
}

#[test]
fn stripe_receipt_with_list_unsubscribe_routes_to_receipts() {
    let rules = CategoryRules::default();
    let h = vec![("list-unsubscribe".into(), "<mailto:unsub@stripe.com>".into())];
    let hits = rules.evaluate(&ctx(&h, "receipts@stripe.com", "Your receipt from Stripe"));
    assert_eq!(hits.first().unwrap().id, "receipts");
}

#[test]
fn facebook_notification_with_list_unsubscribe_routes_to_social() {
    let rules = CategoryRules::default();
    let h = vec![("list-unsubscribe".into(), "<mailto:u@facebookmail.com>".into())];
    let hits = rules.evaluate(&ctx(&h, "friendsuggestion@facebookmail.com", "Friend suggestions"));
    assert_eq!(hits.first().unwrap().id, "social_senders");
}

#[test]
fn instagram_subdomain_with_list_unsubscribe_routes_to_social() {
    let rules = CategoryRules::default();
    let h = vec![("list-unsubscribe".into(), "<mailto:u@mail.instagram.com>".into())];
    let hits = rules.evaluate(&ctx(&h, "follow@mail.instagram.com", "New followers"));
    assert_eq!(hits.first().unwrap().id, "social_senders");
}

#[test]
fn internal_vultr_guest_sender_lands_in_inbox() {
    let rules = CategoryRules::default();
    let h = vec![("list-unsubscribe".into(), "<mailto:x@vultr.guest>".into())];
    let hits = rules.evaluate(&ctx(&h, "salesman@vultr.guest", "daily summary"));
    let first = hits.first().expect("a rule fires");
    assert_eq!(first.id, "internal_source");
    assert_eq!(
        first.action,
        Action::FileInto {
            folder: "INBOX".into()
        }
    );
}

#[test]
fn internal_plausiden_com_sender_lands_in_inbox() {
    let rules = CategoryRules::default();
    let h = vec![];
    let hits = rules.evaluate(&ctx(&h, "alerts@plausiden.com", "Disk usage 87%"));
    assert_eq!(hits.first().unwrap().id, "internal_source");
}

#[test]
fn internal_vultr_vultr_hostname_lands_in_inbox() {
    let rules = CategoryRules::default();
    let h = vec![("from".into(), "robot@vultr.vultr".into())];
    let hits = rules.evaluate(&ctx(&h, "robot@vultr.vultr", "task ack"));
    assert_eq!(hits.first().unwrap().id, "internal_source");
}

#[test]
fn internal_unknown_vultr_subdomain_caught_by_substring() {
    let rules = CategoryRules::default();
    let h = vec![("from".into(), "robot@web-02.plausiden.vultr.guest".into())];
    let hits = rules.evaluate(&ctx(&h, "robot@web-02.plausiden.vultr.guest", "test"));
    assert_eq!(hits.first().unwrap().id, "internal_source");
}

#[test]
fn internal_beats_x_priority_flag() {
    let rules = CategoryRules::default();
    let h = vec![("x-priority".into(), "1".into())];
    let hits = rules.evaluate(&ctx(&h, "salesman@vultr.guest", "URGENT: lead"));
    assert_eq!(
        hits.first().unwrap().id,
        "internal_source",
        "internal_source (100) must outscore important_priority (90)"
    );
}

#[test]
fn list_unsubscribe_overrides_subject_keywords() {
    // Mailchimp "your order" promo. Order: receipts (87) > listunsub
    // (80) > subject_keywords (50). The receipts rule wins now that
    // it ships — these mailings DO look like receipts. Promotions-
    // shaped marketing without "order" / "receipt" subject still
    // hits promotions_listunsub.
    let rules = CategoryRules::default();
    let h = vec![("list-unsubscribe".into(), "<mailto:u@x>".into())];
    let hits = rules.evaluate(&ctx(&h, "noreply@mailchimp.com", "Your order is confirmed"));
    assert_eq!(hits.first().unwrap().id, "receipts");

    // Pure-promo subject still routes via list-unsubscribe.
    let hits = rules.evaluate(&ctx(&h, "noreply@mailchimp.com", "50% off this weekend!"));
    assert_eq!(hits.first().unwrap().id, "promotions_listunsub");
}

#[test]
fn googlegroups_routes_to_forums() {
    let rules = CategoryRules::default();
    let h = vec![];
    let hits = rules.evaluate(&ctx(&h, "thread@googlegroups.com", "Re: design"));
    assert_eq!(
        hits.first().unwrap().action,
        Action::FileInto {
            folder: "Forums".into(),
        }
    );
}

#[test]
fn linkedin_routes_to_social() {
    let rules = CategoryRules::default();
    let h = vec![];
    let hits = rules.evaluate(&ctx(&h, "invitations@linkedin.com", "John wants to connect"));
    assert_eq!(hits.first().unwrap().id, "social_senders");
}

#[test]
fn x_priority_flags_but_does_not_stop() {
    // High-priority GitHub email should be flagged AND filed to Updates.
    let rules = CategoryRules::default();
    let h = vec![("x-priority".into(), "1".into())];
    let hits = rules.evaluate(&ctx(&h, "alerts@github.com", "Build failure"));
    let ids: Vec<_> = hits.iter().map(|r| r.id.as_str()).collect();
    assert!(ids.contains(&"important_priority"));
    assert!(ids.contains(&"updates_senders"), "got {ids:?}");
}

#[test]
fn security_alert_subject_routes_to_important() {
    let rules = CategoryRules::default();
    let h = vec![];
    let hits = rules.evaluate(&ctx(&h, "noreply@accounts.google.com", "Security alert: new sign-in on Linux"));
    let first = hits.first().expect("a rule fires");
    assert_eq!(first.id, "important_security");
    // important_security must beat updates_senders (which @google.com would otherwise hit).
}

#[test]
fn docusign_routes_to_important() {
    let rules = CategoryRules::default();
    let h = vec![];
    let hits = rules.evaluate(&ctx(&h, "dse@docusign.net", "Please sign: Master Services Agreement"));
    assert_eq!(hits.first().unwrap().id, "important_signature");
}

#[test]
fn chase_statement_routes_to_banking() {
    let rules = CategoryRules::default();
    let h = vec![];
    let hits = rules.evaluate(&ctx(&h, "alerts@chase.com", "Your December statement is ready"));
    assert_eq!(hits.first().unwrap().id, "banking");
}

#[test]
fn fidelity_brokerage_alert_routes_to_banking() {
    let rules = CategoryRules::default();
    let h = vec![];
    let hits = rules.evaluate(&ctx(&h, "no-reply@fidelity.com", "Trade confirmation"));
    assert_eq!(hits.first().unwrap().id, "banking");
}

#[test]
fn amex_charge_alert_routes_to_banking() {
    let rules = CategoryRules::default();
    let h = vec![];
    let hits = rules.evaluate(&ctx(&h, "alerts@americanexpress.com", "Large purchase notification"));
    assert_eq!(hits.first().unwrap().id, "banking");
}

#[test]
fn bank_security_alert_still_pages_to_important() {
    // important_security (92) > banking (86): "new sign-in to your
    // bank account" must page, not be filed quietly into Banking.
    let rules = CategoryRules::default();
    let h = vec![];
    let hits = rules.evaluate(&ctx(&h, "alerts@chase.com", "New sign-in detected on your Chase account"));
    assert_eq!(hits.first().unwrap().id, "important_security");
}

#[test]
fn bank_card_declined_still_pages_to_important() {
    // important_billing_critical (89) > banking (86): "card
    // declined" must page.
    let rules = CategoryRules::default();
    let h = vec![];
    let hits = rules.evaluate(&ctx(&h, "alerts@chase.com", "Action required: card declined"));
    assert_eq!(hits.first().unwrap().id, "important_billing_critical");
}

#[test]
fn bank_receipt_routes_to_receipts_not_banking() {
    // receipts (87) > banking (86): "your receipt" wins because
    // it's a financial-record axis. Both are reasonable; receipts
    // is the more specific signal.
    let rules = CategoryRules::default();
    let h = vec![];
    let hits = rules.evaluate(&ctx(&h, "no-reply@chase.com", "Your receipt for the $50 transfer"));
    assert_eq!(hits.first().unwrap().id, "receipts");
}

#[test]
fn united_flight_confirmation_routes_to_travel() {
    let rules = CategoryRules::default();
    let h = vec![];
    let hits = rules.evaluate(&ctx(&h, "no-reply@united.com", "Your flight on May 12 to LAX"));
    assert_eq!(hits.first().unwrap().id, "travel");
}

#[test]
fn marriott_reservation_routes_to_travel() {
    let rules = CategoryRules::default();
    let h = vec![("list-unsubscribe".into(), "<mailto:u@marriott.com>".into())];
    let hits = rules.evaluate(&ctx(&h, "reservations@marriott.com", "Confirmation 12345 — see you May 14"));
    assert_eq!(hits.first().unwrap().id, "travel");
}

#[test]
fn airbnb_booking_routes_to_travel() {
    let rules = CategoryRules::default();
    let h = vec![];
    let hits = rules.evaluate(&ctx(&h, "automated@airbnb.com", "Your trip to Lisbon"));
    assert_eq!(hits.first().unwrap().id, "travel");
}

#[test]
fn airline_receipt_routes_to_receipts_not_travel() {
    // receipts (87) beats travel (86): a "Your receipt from United"
    // is a financial record first, an itinerary second. Both
    // sensible — but receipt-shape wins on score.
    let rules = CategoryRules::default();
    let h = vec![];
    let hits = rules.evaluate(&ctx(&h, "receipts@united.com", "Your receipt from United Airlines — $429.50"));
    assert_eq!(hits.first().unwrap().id, "receipts");
}

#[test]
fn flight_action_required_routes_to_important_not_travel() {
    // Cancellation / "action required" must page to Important (89),
    // not be filed quietly into Travel (86).
    let rules = CategoryRules::default();
    let h = vec![];
    let hits = rules.evaluate(&ctx(&h, "alerts@united.com", "Action required: your flight has been canceled"));
    assert_eq!(hits.first().unwrap().id, "important_billing_critical");
}

#[test]
fn stripe_receipt_routes_to_receipts_folder() {
    let rules = CategoryRules::default();
    let h = vec![("list-unsubscribe".into(), "<mailto:u@stripe.com>".into())];
    let hits = rules.evaluate(&ctx(&h, "receipts@stripe.com", "Your receipt from Stripe — $14.00"));
    let first = hits.first().expect("a rule fires");
    assert_eq!(first.id, "receipts", "Stripe receipt should hit receipts rule first");
    assert_eq!(
        first.action,
        Action::FileInto {
            folder: "Receipts".into()
        }
    );
}

#[test]
fn paypal_payment_received_routes_to_receipts() {
    let rules = CategoryRules::default();
    let h = vec![];
    let hits = rules.evaluate(&ctx(&h, "service@paypal.com", "You've been paid $50.00"));
    assert_eq!(hits.first().unwrap().id, "receipts");
}

#[test]
fn order_confirmation_routes_to_receipts_not_updates() {
    // "Your order" matched the existing updates_subject_keywords rule
    // at score 50; the new receipts rule at 87 should win.
    let rules = CategoryRules::default();
    let h = vec![];
    let hits = rules.evaluate(&ctx(&h, "orders@shopify.com", "Your order has shipped"));
    let first = hits.first().expect("a rule fires");
    assert_eq!(first.id, "receipts", "order confirmations belong in Receipts");
}

#[test]
fn payment_failure_still_routes_to_important_not_receipts() {
    // Score-ordering regression guard: payment-failure copy must beat
    // the receipts rule (87) and hit important_billing_critical (89).
    let rules = CategoryRules::default();
    let h = vec![];
    let hits = rules.evaluate(&ctx(&h, "billing@stripe.com", "Action required: payment failed"));
    let first = hits.first().expect("a rule fires");
    assert_eq!(
        first.id, "important_billing_critical",
        "payment FAILURE must page to Important, not file as a receipt"
    );
}

#[test]
fn generic_github_notification_does_not_hit_receipts() {
    // A non-receipt GitHub email should still go to Updates.
    let rules = CategoryRules::default();
    let h = vec![];
    let hits = rules.evaluate(&ctx(&h, "noreply@github.com", "[repo] PR opened: fix bug"));
    assert_eq!(hits.first().unwrap().id, "updates_senders");
}

#[test]
fn billing_failure_routes_to_important() {
    let rules = CategoryRules::default();
    let h = vec![];
    let hits = rules.evaluate(&ctx(&h, "billing@stripe.com", "Action required: payment failed"));
    // Beats updates_senders(@stripe.com, 85) because important_billing_critical is 89.
    assert_eq!(hits.first().unwrap().id, "important_billing_critical");
}

#[test]
fn ordinary_stripe_receipt_routes_to_receipts() {
    // After the receipts rule shipped, "your receipt" subjects route
    // to Receipts (score 87) rather than updates_senders (85). They
    // must still NOT trigger important_billing_critical (89; needs
    // failure-shaped subject).
    let rules = CategoryRules::default();
    let h = vec![("list-unsubscribe".into(), "<mailto:u@stripe.com>".into())];
    let hits = rules.evaluate(&ctx(&h, "receipts@stripe.com", "Your receipt from Stripe — $14.00"));
    let first = hits.first().unwrap();
    assert_eq!(first.id, "receipts");
    assert_ne!(first.id, "important_billing_critical");
}

#[test]
fn discourse_subdomain_routes_to_forums() {
    // forums_discourse_subdomain matches the "From" header substring, so
    // tests must populate it explicitly (the in-process evaluator does
    // not synthesize a From header from from_address).
    let rules = CategoryRules::default();
    let h = vec![("from".into(), "noreply@discourse.example.org".into())];
    let hits = rules.evaluate(&ctx(&h, "noreply@discourse.example.org", "[Discussion] new topic"));
    assert_eq!(hits.first().unwrap().id, "forums_discourse_subdomain");
}

#[test]
fn rust_users_forum_routes_to_forums_not_updates() {
    let rules = CategoryRules::default();
    let h = vec![];
    let hits = rules.evaluate(&ctx(&h, "noreply@users.rust-lang.org", "Re: trait object lifetimes"));
    // forums_dev_communities (86) beats updates_senders (85) and listunsub (80).
    assert_eq!(hits.first().unwrap().id, "forums_dev_communities");
}

#[test]
fn stackexchange_routes_to_forums() {
    let rules = CategoryRules::default();
    let h = vec![];
    let hits = rules.evaluate(&ctx(&h, "do-not-reply@stackexchange.com", "Your weekly digest"));
    assert_eq!(hits.first().unwrap().id, "forums_dev_communities");
}

#[test]
fn alternate_listid_header_routes_to_forums() {
    let rules = CategoryRules::default();
    let h = vec![("x-list-id".into(), "<example-list.example.org>".into())];
    let hits = rules.evaluate(&ctx(&h, "alice@example.org", "thread reply"));
    assert_eq!(hits.first().unwrap().id, "forums_listid_substring");
}

#[test]
fn unmatched_message_yields_empty() {
    let rules = CategoryRules::default();
    let h = vec![];
    let hits = rules.evaluate(&ctx(&h, "alice@example.org", "lunch tomorrow?"));
    assert!(hits.is_empty(), "got {hits:?}");
}

#[test]
fn default_sieve_output_does_not_require_editheader() {
    // Default emission must compile on stock Pigeonhole — i.e., not
    // require an opt-in extension.
    let s = CategoryRules::default().to_sieve();
    assert!(s.contains("require ["));
    for ext in &["fileinto", "mailbox", "imap4flags"] {
        assert!(s.contains(ext), "missing extension {ext}");
    }
    assert!(!s.contains("editheader"), "default must not require editheader");
    assert!(!s.contains("addheader"), "default must not emit addheader");
}

#[test]
fn audit_header_opt_in_requires_editheader() {
    let s = CategoryRules::default().to_sieve_with(SieveEmitOptions {
        audit_header: true,
    });
    assert!(s.contains("editheader"));
    assert!(s.contains("addheader \"X-PlausiDen-Category\""));
    assert!(s.contains("id=promotions_listunsub"));
}

#[test]
fn sieve_output_orders_by_score_desc() {
    let s = CategoryRules::default().to_sieve();
    let imp_pos = s.find("important_priority").expect("important present");
    let updates_pos = s.find("updates_senders").expect("updates present");
    let promo_pos = s.find("promotions_listunsub").expect("promo present");
    let promo_senders_pos = s.find("promotions_senders").expect("promo senders present");
    // important (90) → updates_senders (85) → promotions_listunsub (80)
    // → forums_listid (75) → promotions_senders (70).
    assert!(imp_pos < updates_pos, "score 90 should precede score 85");
    assert!(updates_pos < promo_pos, "score 85 should precede score 80");
    assert!(promo_pos < promo_senders_pos, "score 80 should precede score 70");
}

#[test]
fn sieve_escape_handles_quotes_and_backslashes() {
    assert_eq!(sieve_escape(r#"a"b"#), r#"a\"b"#);
    assert_eq!(sieve_escape(r"a\b"), r"a\\b");
    assert_eq!(sieve_escape("plain"), "plain");
}

#[test]
fn ascii_case_variants_fire_the_same_rules() {
    let rules = CategoryRules::default();
    let h: Vec<(String, String)> = vec![
        ("list-id".into(), "<dev.discourse.example.org>".into()),
        ("list-unsubscribe".into(), "<mailto:unsub@shop.example>".into()),
    ];
    let upper: Vec<(String, String)> =
        h.iter().map(|(k, v)| (k.clone(), v.to_ascii_uppercase())).collect();
    let a = rules.evaluate(&ctx(&h, "billing@bank.example", "Your Flight itinerary and receipt — Zürich"));
    let b = rules.evaluate(&ctx(&upper, "BILLING@BANK.EXAMPLE", "YOUR FLIGHT ITINERARY AND RECEIPT — ZüRICH"));
    let ids = |v: &Vec<&mailroom::config::categories::CategoryRule>| -> Vec<String> {
        v.iter().map(|r| r.id.clone()).collect()
    };
    assert!(!a.is_empty());
    assert_eq!(ids(&a), ids(&b));
}
