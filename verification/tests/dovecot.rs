use mailroom::config::dovecot::{generate_passwd_entry, parse_passwd_file};

#[test]
fn generate_valid_passwd_entry() {
    let entry = generate_passwd_entry(
        "tim@sacred.vote",
        "{SHA512-CRYPT}$6$abc$xyz",
        5000,
        5000,
        "/var/mail/vhosts",
        "sacred.vote",
        "tim",
    )
    .unwrap();
    assert!(entry.starts_with("tim@sacred.vote:"));
    assert!(entry.contains("/var/mail/vhosts/sacred.vote/tim/"));
}

#[test]
fn reject_invalid_address() {
    assert!(generate_passwd_entry("noatsign", "hash", 5000, 5000, "/var/mail", "d", "u").is_err());
    assert!(generate_passwd_entry("", "hash", 5000, 5000, "/var/mail", "d", "u").is_err());
}

#[test]
fn parse_passwd_entries() {
    let content = "tim@sacred.vote:{SHA512-CRYPT}hash:5000:5000::/var/mail/vhosts/sacred.vote/tim/\n\
                    admin@sacred.vote:{SHA512-CRYPT}hash2:5000:5000::/var/mail/vhosts/sacred.vote/admin/\n";
    let entries = parse_passwd_file(content);
    assert_eq!(entries.len(), 2);
    assert_eq!(entries[0].0, "tim@sacred.vote");
}

#[test]
fn generated_entry_reads_back_as_address_hash_and_home() {
    let line = generate_passwd_entry("tim@sacred.vote", "{SHA512-CRYPT}$6$x", 5000, 5000, "/var/mail/vhosts", "sacred.vote", "tim").unwrap();
    let content = format!("{line}\n# comment\n\n");
    assert_eq!(
        parse_passwd_file(&content),
        vec![(
            "tim@sacred.vote".to_string(),
            "{SHA512-CRYPT}$6$x".to_string(),
            "/var/mail/vhosts/sacred.vote/tim/".to_string(),
        )]
    );
}
