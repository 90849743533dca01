use mailroom::bounce::{bounce_facts, emit_multipart_report, rewrite_bounce, unfold_header_lines};
use mailroom::templates::prebuilt::BounceReason;

const REPORT: &str = "Return-Path: <>\r\nFrom: postmaster@plausiden.com\r\nSubject: Undelivered\r\nMIME-Version: 1.0\r\nContent-Type: multipart/report; report-type=delivery-status;\r\n\tboundary=\"B1\"\r\n\r\n--B1\r\nContent-Type: text/plain\r\n\r\nfailed\r\n--B1\r\nContent-Type: message/delivery-status\r\n\r\nFinal-Recipient: rfc822; bob@x\r\nStatus: 4.4.1\r\n\r\n--B1--\r\n";

#[test]
fn facts_default_what_the_report_leaves_out() {
    let f = bounce_facts(REPORT.as_bytes()).unwrap();
    assert_eq!(f.failed_recipient, "bob@x");
    assert_eq!(f.reason, BounceReason::Temporary);
    assert_eq!(f.diagnostic, "(no SMTP diagnostic)");
    assert_eq!(f.original_subject, "(no subject)");
    assert_eq!(f.to, "(unknown)");
    assert!(f.delivery_status.is_some());
    assert!(f.rfc822.is_none());
}

#[test]
fn emitted_report_passes_headers_and_replaces_mime_ones() {
    let out = emit_multipart_report(REPORT.as_bytes(), "PLAIN", "HTML", Some(b"DS"), None, "alt-1", "rep-1");
    let s = String::from_utf8(out).unwrap();
    assert!(s.starts_with("Return-Path: <>\nFrom: postmaster@plausiden.com\nSubject: Undelivered\nContent-Type: multipart/report; report-type=delivery-status;\r\n boundary=\"rep-1\"\nMIME-Version: 1.0\n\n--rep-1\n"));
    assert!(s.contains("--alt-1\nContent-Type: text/plain; charset=\"utf-8\"\nContent-Transfer-Encoding: 8bit\n\nPLAIN\n"));
    assert!(s.ends_with("--alt-1--\n--rep-1\nContent-Type: message/delivery-status\n\nDS\n--rep-1--\n"));
    assert_eq!(s.matches("MIME-Version").count(), 1);
}

#[test]
fn non_report_is_passed_through() {
    assert!(rewrite_bounce(b"not a message at all", "a", "b").is_none() || bounce_facts(b"not a message at all").is_none());
    assert!(rewrite_bounce(b"Content-Type: text/plain\r\n\r\nhi", "a", "b").is_none());
}

#[test]
fn header_pairs_read_blocks_and_cap_lines() {
    let pairs = unfold_header_lines(b"A: 1\r\n\r\nB: 2\r\n  more\r\nno colon\r\nC:3");
    assert_eq!(
        pairs,
        vec![
            ("A".to_string(), "1".to_string()),
            ("B".to_string(), "2 more".to_string()),
            ("C".to_string(), "3".to_string()),
        ]
    );
}
