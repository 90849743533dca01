use mailroom::config::MailboxLayout;

#[test]
fn default_layout_includes_all_categories() {
    let layout = MailboxLayout::default();
    let cats = layout.category_folders();
    for expected in &["Updates", "Receipts", "Social", "Promotions", "Forums"] {
        assert!(cats.contains(expected), "missing category {expected}");
    }
}

#[test]
fn dovecot_output_has_special_use_markers() {
    let conf = MailboxLayout::default().to_dovecot_conf();
    assert!(conf.contains("special_use = \\Drafts"));
    assert!(conf.contains("special_use = \\Sent"));
    assert!(conf.contains("special_use = \\Junk"));
    assert!(conf.contains("special_use = \\Trash"));
    assert!(conf.contains("special_use = \\Archive"));
    assert!(conf.contains("special_use = \\Important"));
}

#[test]
fn alias_folders_are_not_auto_subscribed() {
    let conf = MailboxLayout::default().to_dovecot_conf();
    // `Sent Messages` exists for legacy clients but should not
    // auto-subscribe — duplicate Sent listings confuse users.
    let sm_block_start = conf.find("\"Sent Messages\"").expect("sent messages folder");
    let next_close = conf[sm_block_start..].find("}").expect("close brace");
    let block = &conf[sm_block_start..sm_block_start + next_close];
    assert!(!block.contains("auto = subscribe"), "alias auto-subscribed");
    assert!(block.contains("special_use = \\Sent"));
}

#[test]
fn quoted_names_for_whitespace() {
    let conf = MailboxLayout::default().to_dovecot_conf();
    assert!(conf.contains("mailbox \"Sent Messages\""));
    assert!(conf.contains("mailbox Drafts"));
}
