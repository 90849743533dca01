use mailroom::config::categories::Action;
use mailroom::orchestrator::schedule::{LAST_CHRONO_SECOND, NextRun, next_run_at};
use mailroom::templates::prebuilt::AlertSeverity;
use mailroom::tools::admin::{
    EmitStep, action_summary, classify_input, creation_preview, emit_step, log_query,
    queue_summary, unified_diff,
};
use mailroom::tools::alert_cli::{AlertArgs, parse_args};
use mailroom::tools::tpl_cli::{is_known_theme, mime_envelope, select_theme};

fn argv(xs: &[&str]) -> Vec<String> {
    xs.iter().map(|s| s.to_string()).collect()
}

#[test]
fn alert_args_errors_name_the_flag() {
    assert_eq!(parse_args(&argv(&["a", "--severity"])).unwrap_err(), "--severity requires a value");
    assert_eq!(
        parse_args(&argv(&["a", "--severity", "loud"])).unwrap_err(),
        "--severity must be critical|warning|info, got \"loud\""
    );
    assert_eq!(
        parse_args(&argv(&["a", "--field", "nolabel"])).unwrap_err(),
        "--field expects NAME=VALUE, got \"nolabel\""
    );
    assert_eq!(parse_args(&argv(&["a", "--bogus"])).unwrap_err(), "unknown arg: --bogus");
    assert_eq!(parse_args(&argv(&["a", "--severity", "info"])).unwrap_err(), "--title is required");
    assert_eq!(parse_args(&argv(&["a", "--title", "t"])).unwrap_err(), "--severity is required");
}

#[test]
fn alert_args_help_wins_and_last_output_flag_counts() {
    assert!(matches!(parse_args(&argv(&["a", "--bogus-later", "-h"])), Err(_)));
    assert!(matches!(parse_args(&argv(&["a", "-h", "--bogus"])), Ok(AlertArgs::Help)));
    match parse_args(&argv(&["a", "--severity", "Warn", "--title", "t", "--mime", "--plain"])).unwrap() {
        AlertArgs::Render(r) => {
            assert_eq!(r.severity, AlertSeverity::Warning);
            assert!(r.to.is_none());
            assert_eq!(r.summary, "");
        }
        AlertArgs::Help => panic!("expected a render request"),
    }
}

#[test]
fn theme_names_and_envelope() {
    assert!(is_known_theme(None));
    assert!(is_known_theme(Some("PlausiDen")));
    assert!(is_known_theme(Some("Sacred")));
    assert!(!is_known_theme(Some("neon")));
    assert_eq!(select_theme(Some("SACRED")).brand_name, "SacredVote");
    assert_eq!(
        mime_envelope(Some("ops@x"), "Subj", "plain", "<p>html</p>", "alt-1"),
        "To: ops@x\nSubject: Subj\nMIME-Version: 1.0\nContent-Type: multipart/alternative; boundary=\"alt-1\"\n\n--alt-1\nContent-Type: text/plain; charset=\"utf-8\"\nContent-Transfer-Encoding: 8bit\n\nplain\n--alt-1\nContent-Type: text/html; charset=\"utf-8\"\nContent-Transfer-Encoding: 8bit\n\n<p>html</p>\n--alt-1--\n"
    );
    assert!(mime_envelope(None, "S", "p", "h", "b").starts_with("Subject: S\n"));
}

#[test]
fn action_summaries_nest() {
    let a = Action::Sequence {
        actions: vec![
            Action::FileInto { folder: "Receipts".into() },
            Action::SetFlag { flag: "\\Flagged".into() },
            Action::Sequence { actions: vec![] },
        ],
    };
    assert_eq!(action_summary(&a), "Sequence[FileInto(Receipts), SetFlag(\\Flagged), Sequence[]]");
}

#[test]
fn classify_input_lowercases_sender_and_header_names() {
    let raw = "From: \"Alice\" <Alice@Example.COM>\r\nSubject: Hi\r\nList-Unsubscribe: <mailto:u@x>\r\nSubject: second\r\n\r\nbody";
    let c = classify_input(raw);
    assert_eq!(c.from_address, "alice@example.com");
    assert_eq!(c.subject, "Hi");
    assert_eq!(
        c.headers,
        vec![
            ("list-unsubscribe".to_string(), "<mailto:u@x>".to_string()),
            ("subject".to_string(), "second".to_string()),
        ]
    );
    let none = classify_input("X-Only: 1\r\n");
    assert_eq!(none.from_address, "");
    assert_eq!(none.subject, "");
}

#[test]
fn unified_diff_marks_removed_and_added_lines() {
    let old = "a\nb\nc\nd\n";
    let new = "a\nB\nc\nd\ne\n";
    assert_eq!(unified_diff(old, new), vec!["    - b", "    + B", "    + e"]);
    assert!(unified_diff("same\n", "same\n").is_empty());
    assert_eq!(unified_diff("", "x\ny"), vec!["    + x", "    + y"]);
    assert_eq!(unified_diff("x\ny", ""), vec!["    - x", "    - y"]);
}

#[test]
fn log_query_quotes_the_mailbox() {
    assert_eq!(
        log_query(20, Some("o'brien")),
        "SELECT created_at, direction, from_addr, to_addr, subject, mailbox, status FROM email_log WHERE mailbox = 'o''brien' ORDER BY created_at DESC LIMIT 20"
    );
    assert!(log_query(5, None).ends_with("FROM email_log ORDER BY created_at DESC LIMIT 5"));
}

#[test]
fn queue_summary_counts_lines_but_the_header() {
    assert_eq!(queue_summary("Mail queue is empty\n"), "EMPTY");
    assert_eq!(queue_summary("-Queue ID-\nA1 x\nB2 y\n"), "2 message(s)");
    assert_eq!(queue_summary(""), "0 message(s)");
}

#[test]
fn emit_steps_follow_stdout_equality_and_force() {
    assert_eq!(emit_step(Some("x"), "x", true, false), EmitStep::Print);
    assert_eq!(emit_step(Some("x"), "x", false, false), EmitStep::Current);
    assert_eq!(emit_step(None, "x", false, false), EmitStep::Refuse);
    assert_eq!(emit_step(Some("y"), "x", false, true), EmitStep::Write);
    let many: String = (0..50).map(|i| format!("l{i}\n")).collect();
    let p = creation_preview(&many);
    assert_eq!(p.len(), 40);
    assert_eq!(p[0], "    + l0");
}

#[test]
fn next_run_after_a_fixed_time() {
    // 2026-05-01T14:40:00Z; daily at 09:00 → next day 09:00.
    assert_eq!(
        next_run_at("0 9 * * *", 1_777_646_400),
        NextRun::At("2026-05-02T09:00:00+00:00".into())
    );
    assert_eq!(next_run_at("not cron", 0), NextRun::Invalid);
}

#[test]
fn next_run_just_before_chronos_last_second_is_exhausted() {
    assert_eq!(next_run_at("0 9 * * *", LAST_CHRONO_SECOND - 1), NextRun::Exhausted);
}
