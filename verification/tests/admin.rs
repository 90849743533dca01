use mailroom::tools::admin::{extract_address, parse_rfc822_headers};

#[test]
fn parse_simple_headers() {
    let raw = "From: alice@example.com\r\nSubject: hi\r\nX-Custom: yes\r\n\r\nbody";
    let p = parse_rfc822_headers(raw);
    assert_eq!(p.from.as_deref(), Some("alice@example.com"));
    assert_eq!(p.subject.as_deref(), Some("hi"));
    assert_eq!(p.other, vec![("X-Custom".into(), "yes".into())]);
}

#[test]
fn parse_continuation_lines() {
    let raw = "Subject: line one\r\n\tline two\r\n line three\r\n\r\n";
    let p = parse_rfc822_headers(raw);
    assert_eq!(p.subject.as_deref(), Some("line one line two line three"));
}

#[test]
fn parse_named_from_extracts_address() {
    let raw = "From: \"Alice\" <alice@example.com>\r\n\r\n";
    let p = parse_rfc822_headers(raw);
    let addr = extract_address(p.from.as_deref().unwrap());
    assert_eq!(addr, "alice@example.com");
}

#[test]
fn parse_duplicate_received_headers_preserved() {
    let raw = "Received: from a\r\nReceived: from b\r\n\r\n";
    let p = parse_rfc822_headers(raw);
    let count = p
        .other
        .iter()
        .filter(|(k, _)| k.eq_ignore_ascii_case("received"))
        .count();
    assert_eq!(count, 2);
}

#[test]
fn parse_no_blank_line_still_works() {
    // Some IMAP fetches return only headers without a body separator.
    let raw = "From: a@b.com\r\nSubject: x\r\n";
    let p = parse_rfc822_headers(raw);
    assert_eq!(p.from.as_deref(), Some("a@b.com"));
    assert_eq!(p.subject.as_deref(), Some("x"));
}
