use mailroom::bounce::{classify_status, rewrite_bounce, strip_prefix_ci, unfold_header_lines};
use mailroom::templates::prebuilt::BounceReason;

const SAMPLE_BOUNCE: &str = "Return-Path: <>\r
From: postmaster@plausiden.com\r
To: william@plausiden.com\r
Subject: Mail couldn't be delivered\r
Date: Fri, 01 May 2026 15:13:26 +0000 (UTC)\r
MIME-Version: 1.0\r
Auto-Submitted: auto-replied\r
Content-Type: multipart/report; report-type=delivery-status;\r
\tboundary=\"BOUNDARY1\"\r
\r
--BOUNDARY1\r
Content-Type: text/plain; charset=\"us-ascii\"\r
\r
This is the mail system. Could not deliver your message.\r
\r
--BOUNDARY1\r
Content-Type: message/delivery-status\r
\r
Reporting-MTA: dns; mail.plausiden.com\r
\r
Final-Recipient: rfc822; nobody@plausiden.com\r
Action: failed\r
Status: 5.1.1\r
Diagnostic-Code: smtp; 550 5.1.1 user unknown\r
\r
--BOUNDARY1\r
Content-Type: message/rfc822\r
\r
From: william@plausiden.com\r
To: nobody@plausiden.com\r
Subject: hi there\r
\r
the body of the original\r
\r
--BOUNDARY1--\r
";


#[test]
fn rewrites_recognized_bounce() {
    let result = rewrite_bounce(SAMPLE_BOUNCE.as_bytes(), "alt-test", "rep-test");
    assert!(
        result.is_some(),
        "expected the sample bounce to be recognized"
    );
    let out = String::from_utf8(result.unwrap()).unwrap();

    // New chrome inserted
    assert!(out.contains("multipart/alternative"));
    assert!(out.contains("text/html"));
    assert!(out.contains("<!DOCTYPE html>"));
    // Failed recipient extracted
    assert!(out.contains("nobody@plausiden.com"));
    // Diagnostic surfaced in HTML body
    assert!(out.contains("550 5.1.1 user unknown"));
    // Original subject surfaced
    assert!(out.contains("hi there"));
    // RFC 3464 sub-parts preserved
    assert!(out.contains("Final-Recipient: rfc822; nobody@plausiden.com"));
}

#[test]
fn passes_through_non_bounce() {
    let plain = b"Subject: just a message\r\n\r\nbody";
    assert!(rewrite_bounce(plain, "alt-test", "rep-test").is_none());
}

#[test]
fn classify_status_branches() {
    assert!(matches!(
        classify_status("4.4.1", ""),
        BounceReason::Temporary
    ));
    assert!(matches!(
        classify_status("5.1.1", ""),
        BounceReason::UserUnknown
    ));
    assert!(matches!(
        classify_status("5.7.1", ""),
        BounceReason::PolicyReject
    ));
    assert!(matches!(classify_status("5.0.0", ""), BounceReason::Other));
    // Diagnostic-only fallback
    assert!(matches!(
        classify_status("", "550 5.1.1 unknown"),
        BounceReason::UserUnknown
    ));
    assert!(matches!(
        classify_status("", "554 5.7.26"),
        BounceReason::PolicyReject
    ));
}

#[test]
fn strip_prefix_ci_works() {
    assert_eq!(strip_prefix_ci("Status: 5.1.1", "status:").as_deref(), Some(" 5.1.1"));
    assert_eq!(strip_prefix_ci("STATUS: x", "Status:").as_deref(), Some(" x"));
    assert_eq!(strip_prefix_ci("nope", "Status:").as_deref(), None);
}

#[test]
fn unfold_joins_continuation_lines() {
    let raw = b"Diagnostic-Code: smtp; 550 5.1.1 <nobody@x> User\r\n  doesn't exist: nobody@x\r\nStatus: 5.1.1\r\n\r\nbody\r\n";
    let pairs = unfold_header_lines(raw);
    let diag = pairs
        .iter()
        .find(|(k, _)| k.eq_ignore_ascii_case("Diagnostic-Code"))
        .map(|(_, v)| v.clone())
        .unwrap();
    assert!(
        diag.contains("User doesn't exist: nobody@x"),
        "unfold should join multi-line diagnostic: {diag:?}"
    );
    let status = pairs
        .iter()
        .find(|(k, _)| k.eq_ignore_ascii_case("Status"))
        .map(|(_, v)| v.clone())
        .unwrap();
    assert_eq!(status, "5.1.1");
}

#[test]
fn rewrites_multi_line_diagnostic() {
    // Same as SAMPLE_BOUNCE but with Diagnostic-Code spanning two lines.
    let raw = SAMPLE_BOUNCE.replace(
        "Diagnostic-Code: smtp; 550 5.1.1 user unknown",
        "Diagnostic-Code: smtp; 550 5.1.1 user\r\n  unknown — try a different address",
    );
    let result = rewrite_bounce(raw.as_bytes(), "alt-test", "rep-test");
    assert!(result.is_some());
    let out = String::from_utf8(result.unwrap()).unwrap();
    // Both lines of the diagnostic survive into the rendered body.
    assert!(
        out.contains("user unknown — try a different address"),
        "multi-line diagnostic was truncated"
    );
}
