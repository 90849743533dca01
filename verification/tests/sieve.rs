use mailroom::config::sieve::generate_sieve;
use mailroom::config::{Mailbox, MailboxKind};

#[test]
fn noreply_generates_reject() {
    let mb = Mailbox {
        local_part: "noreply".into(),
        kind: MailboxKind::Service,
        display_name: None,
    };
    let script = generate_sieve(&mb, "sacred.vote");
    assert!(script.contains("reject"));
    assert!(script.contains("noreply@sacred.vote"));
}

#[test]
fn router_generates_fileinto() {
    let mb = Mailbox {
        local_part: "router".into(),
        kind: MailboxKind::Router,
        display_name: None,
    };
    let script = generate_sieve(&mb, "sacred.vote");
    assert!(script.contains("Processing"));
}

#[test]
fn user_generates_standard_filter() {
    let mb = Mailbox {
        local_part: "tim".into(),
        kind: MailboxKind::User,
        display_name: Some("Tim".into()),
    };
    let script = generate_sieve(&mb, "sacred.vote");
    assert!(script.contains("tim@sacred.vote"));
}
