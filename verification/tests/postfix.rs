use mailroom::config::postfix::{generate_vmailbox_entries, validate_local_part};
use mailroom::config::{Domain, Mailbox, MailboxKind};

#[test]
fn generate_entries() {
    let domain = Domain {
        name: "sacred.vote".into(),
        dkim_enabled: true,
        dkim_selector: "default".into(),
        mailboxes: vec![
            Mailbox {
                local_part: "tim".into(),
                kind: MailboxKind::User,
                display_name: None,
            },
            Mailbox {
                local_part: "noreply".into(),
                kind: MailboxKind::Service,
                display_name: None,
            },
        ],
    };
    let entries = generate_vmailbox_entries(&domain);
    assert_eq!(entries.len(), 2);
    assert_eq!(entries[0], "tim@sacred.vote  sacred.vote/tim/");
    assert_eq!(entries[1], "noreply@sacred.vote  sacred.vote/noreply/");
}

#[test]
fn validate_local_part_rejects_bad_input() {
    assert!(validate_local_part("").is_err());
    assert!(validate_local_part("has space").is_err());
    assert!(validate_local_part("has@at").is_err());
    assert!(validate_local_part("tim").is_ok());
    assert!(validate_local_part("no-reply").is_ok());
}
