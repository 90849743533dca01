use mailroom::config::dkim::{
    key_table_entry, pick_existing, resolve_key_table_path, resolve_signing_table_path,
    resolve_trusted_hosts_path, signing_table_entry, trusted_hosts,
};
use mailroom::config::{Domain, Mailbox, MailboxKind};

fn test_domain() -> Domain {
    Domain {
        name: "sacred.vote".into(),
        dkim_enabled: true,
        dkim_selector: "default".into(),
        mailboxes: vec![Mailbox {
            local_part: "tim".into(),
            kind: MailboxKind::User,
            display_name: None,
        }],
    }
}

#[test]
fn key_table_format() {
    let entry = key_table_entry(&test_domain());
    assert!(entry.contains("default._domainkey.sacred.vote"));
    assert!(entry.contains("/etc/opendkim/keys/sacred.vote/default.private"));
}

#[test]
fn signing_table_format() {
    let entry = signing_table_entry(&test_domain());
    assert_eq!(entry, "*@sacred.vote  default._domainkey.sacred.vote");
}

#[test]
fn trusted_hosts_includes_localhost() {
    let hosts = trusted_hosts(&[test_domain()]);
    assert!(hosts.contains("127.0.0.1"));
    assert!(hosts.contains("*.sacred.vote"));
}

#[test]
fn pick_existing_returns_first_match() {
    // /etc/passwd exists everywhere we run CI; /no/such/file shouldn't.
    let pick = pick_existing(&["/no/such/file", "/etc/passwd"]);
    assert_eq!(pick, "/etc/passwd");
}

#[test]
fn pick_existing_prefers_first_candidate() {
    // When multiple candidates exist, we take the first listed —
    // canonical (CamelCase) paths are always first in the resolver
    // wrappers, so a host with BOTH conventions present (rare,
    // usually a botched cross-distro upgrade) gets the canonical one.
    let pick = pick_existing(&["/etc/passwd", "/etc/hostname"]);
    assert_eq!(pick, "/etc/passwd");
}

#[test]
fn pick_existing_falls_back_to_canonical() {
    // Neither candidate exists — we want the canonical (first) path
    // back so a fresh `mail-cli setup` writes to the canonical
    // location rather than refusing to act.
    let pick = pick_existing(&["/no/such/file", "/also/missing"]);
    assert_eq!(pick, "/no/such/file");
}

#[test]
fn resolver_wrappers_compile_and_return_static_strs() {
    // Smoke test — the actual filesystem behavior is exercised by
    // pick_existing tests above; here we just confirm the public
    // wrappers stay wired.
    let kt = resolve_key_table_path();
    let st = resolve_signing_table_path();
    let th = resolve_trusted_hosts_path();
    assert!(kt.starts_with("/etc/opendkim/"));
    assert!(st.starts_with("/etc/opendkim/"));
    assert!(th.starts_with("/etc/opendkim/"));
}
