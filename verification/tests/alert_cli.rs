use mailroom::templates::prebuilt::AlertSeverity;
use mailroom::tools::alert_cli::{AlertArgs, OutputMode, parse_args, parse_field, parse_severity};

#[test]
fn parse_severity_accepts_aliases() {
    assert!(matches!(parse_severity("critical"), Some(AlertSeverity::Critical)));
    assert!(matches!(parse_severity("CRIT"), Some(AlertSeverity::Critical)));
    assert!(matches!(parse_severity("warn"), Some(AlertSeverity::Warning)));
    assert!(matches!(parse_severity("info"), Some(AlertSeverity::Info)));
    assert!(parse_severity("nonsense").is_none());
}

#[test]
fn parse_field_handles_mono_prefix() {
    let f = parse_field("@Host=web-01").unwrap();
    assert_eq!(f.label, "Host");
    assert_eq!(f.value, "web-01");
    assert!(f.mono);

    let f = parse_field("Used=95%").unwrap();
    assert_eq!(f.label, "Used");
    assert_eq!(f.value, "95%");
    assert!(!f.mono);
}

#[test]
fn parse_field_rejects_missing_equals() {
    assert!(parse_field("Host").is_none());
}

#[test]
fn parse_args_requires_severity_and_title() {
    let argv: Vec<String> = vec!["mail-alert".into(), "--summary".into(), "x".into()];
    let r = parse_args(&argv);
    assert!(r.is_err());
    let msg = format!("{:?}", r.err());
    // Either severity or title is missing — error should name one of them.
    assert!(
        msg.contains("severity") || msg.contains("title"),
        "expected severity/title in error, got {msg}"
    );
}

#[test]
fn parse_args_full_happy_path() {
    let argv: Vec<String> = vec![
        "mail-alert".into(),
        "--severity".into(),
        "critical".into(),
        "--title".into(),
        "Disk full".into(),
        "--summary".into(),
        "/var crossed 95%".into(),
        "--field".into(),
        "@Host=web-01".into(),
        "--field".into(),
        "Used=95%".into(),
        "--runbook".into(),
        "https://x/d".into(),
        "--on-call".into(),
        "oncall@x".into(),
        "--to".into(),
        "ops@x".into(),
        "--mime".into(),
    ];
    let r = parse_args(&argv).expect("parses");
    match r {
        AlertArgs::Render(rr) => {
            assert!(matches!(rr.severity, AlertSeverity::Critical));
            assert_eq!(rr.title, "Disk full");
            assert_eq!(rr.fields.len(), 2);
            assert!(rr.fields[0].mono);
            assert!(!rr.fields[1].mono);
            assert_eq!(rr.runbook.as_deref(), Some("https://x/d"));
            assert_eq!(rr.to.as_deref(), Some("ops@x"));
            assert_eq!(rr.output, OutputMode::Mime);
        }
        _ => panic!(),
    }
}

#[test]
fn parse_args_mime_requires_to() {
    let argv: Vec<String> = vec![
        "mail-alert".into(),
        "--severity".into(),
        "warning".into(),
        "--title".into(),
        "x".into(),
        "--mime".into(),
    ];
    let r = parse_args(&argv);
    let msg = format!("{:?}", r.err());
    assert!(msg.contains("--to"), "expected --to error, got {msg}");
}
