use mailroom::config::{Mailbox, MailboxKind};

#[test]
fn mailbox_address_format() {
    let mb = Mailbox {
        local_part: "tim".to_string(),
        kind: MailboxKind::User,
        display_name: Some("Tim".to_string()),
    };
    assert_eq!(mb.address("sacred.vote"), "tim@sacred.vote");
}
