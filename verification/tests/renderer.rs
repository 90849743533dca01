use mailroom::orchestrator::renderer::{TemplateError, TemplateRenderer, template_stem};

const NOTIFICATION_J2: &str = "New email in {{ mailbox }}\nPriority: {{ priority }}\n\nFrom: {{ original_from }}\nSubject: {{ original_subject }}\nDate: {{ original_date }}\n\nPreview:\n{{ body_preview }}\n\n---\nTracking ID: {{ tracking_id }}\n";

const ROUTER_ACK_J2: &str = "Action: Send email\nFrom: {{ from }}\nTo: {{ to }}\nSubject: {{ subject }}\n{% if scheduled_at %}Scheduled: {{ scheduled_at }}\n{% endif %}Status: {{ status }}\nTracking ID: {{ tracking_id }}\n";

fn setup_templates() -> TemplateRenderer {
    let files = vec![
        ("notification.txt.j2".to_string(), NOTIFICATION_J2.to_string()),
        ("router_ack.txt.j2".to_string(), ROUTER_ACK_J2.to_string()),
        ("README".to_string(), "not a template {{".to_string()),
    ];
    TemplateRenderer::from_files(files).unwrap()
}

fn vars(pairs: &[(&str, &str)]) -> Vec<(String, Option<String>)> {
    pairs.iter().map(|(k, v)| (k.to_string(), Some(v.to_string()))).collect()
}

#[test]
fn loads_templates_from_directory() {
    let renderer = setup_templates();
    let names = renderer.template_names();
    assert!(names.contains(&"notification.txt".to_string()));
    assert!(names.contains(&"router_ack.txt".to_string()));
}

#[test]
fn render_notification() {
    let renderer = setup_templates();
    let result = renderer
        .render_notification(
            "support@sacred.vote",
            "high",
            "voter@example.com",
            "Need help with voting",
            "2026-04-05 12:00:00",
            "I can't find my voter code...",
            "abc-123",
        )
        .unwrap();
    assert!(result.contains("support@sacred.vote"));
    assert!(result.contains("high"));
    assert!(result.contains("voter@example.com"));
    assert!(result.contains("Need help with voting"));
    assert!(result.contains("abc-123"));
}

#[test]
fn render_router_ack_with_schedule() {
    let renderer = setup_templates();
    let result = renderer
        .render_router_ack(
            "noreply@sacred.vote",
            "voter@example.com",
            "Your ballot receipt",
            Some("2026-04-06 08:00:00"),
            "queued",
            "xyz-789",
        )
        .unwrap();
    assert!(result.contains("Scheduled: 2026-04-06 08:00:00"));
    assert!(result.contains("queued"));
}

#[test]
fn render_router_ack_without_schedule() {
    let renderer = setup_templates();
    let result = renderer
        .render_router_ack(
            "noreply@sacred.vote",
            "voter@example.com",
            "Your ballot receipt",
            None,
            "sent",
            "xyz-789",
        )
        .unwrap();
    assert!(!result.contains("Scheduled:"));
    assert!(result.contains("sent"));
}

#[test]
fn from_strings_works() {
    let renderer = TemplateRenderer::from_strings(&[("test.txt", "Hello {{ name }}!")]).unwrap();
    let result = renderer.render("test.txt", &vars(&[("name", "Tim")])).unwrap();
    assert_eq!(result, "Hello Tim!");
}

#[test]
fn missing_template_returns_error() {
    let renderer = TemplateRenderer::from_strings(&[]).unwrap();
    assert!(renderer.render("nonexistent", &vars(&[])).is_err());
}

#[test]
fn render_polished_notification_returns_plain_and_html() {
    let renderer = setup_templates();
    let (plain, html) = renderer
        .render_polished_notification(
            "support@sacred.vote",
            "high",
            "voter@example.com",
            "Need help with voting",
            "2026-04-05 12:00:00",
            "I can't find my voter code...",
            "abc-123",
        )
        .unwrap();
    assert!(plain.contains("support@sacred.vote"));
    assert!(plain.contains("voter@example.com"));
    assert!(html.contains("<!DOCTYPE html>"));
    assert!(html.contains("Need help with voting"));
    assert!(html.contains("voter@example.com"));
    assert!(html.contains("Tracking ID: abc-123"));
    assert!(html.contains("High priority"));
    assert!(!html.contains("<style"));
}

#[test]
fn render_polished_notification_truncates_long_preview() {
    let renderer = setup_templates();
    let long_preview = "x".repeat(1000);
    let (_, html) = renderer
        .render_polished_notification("m@x", "low", "f@x", "subj", "2026", &long_preview, "id")
        .unwrap();
    assert!(html.contains("xxxx…"));
    assert!(!html.contains(&"x".repeat(500)));
}

#[test]
fn special_chars_escaped_in_output() {
    let renderer = TemplateRenderer::from_strings(&[("test.txt", "Subject: {{ subject }}")]).unwrap();
    let result = renderer
        .render("test.txt", &vars(&[("subject", "Hello <world> & \"friends\"")]))
        .unwrap();
    assert!(result.contains("Hello"));
}

// ----- further cases ---------------------------------------------------

#[test]
fn later_source_replaces_earlier_of_same_name() {
    let renderer =
        TemplateRenderer::from_strings(&[("a", "one"), ("b", "two"), ("a", "three")]).unwrap();
    assert_eq!(renderer.template_names(), vec!["a".to_string(), "b".to_string()]);
    assert_eq!(renderer.render("a", &vars(&[])).unwrap(), "three");
}

#[test]
fn syntax_error_names_the_template() {
    let r = TemplateRenderer::from_strings(&[("ok", "fine"), ("bad", "{% if %}"), ("worse", "{{")]);
    assert_eq!(r.err(), Some(TemplateError::Syntax("bad".to_string())));
    assert_eq!(
        TemplateError::Syntax("bad".to_string()).message(),
        "template 'bad' has a syntax error"
    );
}

#[test]
fn missing_template_error_names_it() {
    let renderer = TemplateRenderer::from_strings(&[]).unwrap();
    let e = renderer
        .render_notification("m", "p", "f", "s", "d", "b", "t")
        .unwrap_err();
    assert_eq!(e, TemplateError::NotFound("notification.txt".to_string()));
    assert_eq!(e.message(), "notification.txt template not found");
}

#[test]
fn undefined_variable_renders_empty_and_none_is_falsy() {
    let renderer =
        TemplateRenderer::from_strings(&[("t", "[{{ missing }}]{% if gone %}yes{% endif %}")]).unwrap();
    let v = vec![("gone".to_string(), None)];
    assert_eq!(renderer.render("t", &v).unwrap(), "[]");
}

#[test]
fn template_stem_takes_j2_files_only() {
    assert_eq!(template_stem("notification.txt.j2"), Some("notification.txt".to_string()));
    assert_eq!(template_stem("a.j2"), Some("a".to_string()));
    assert_eq!(template_stem(".j2"), None);
    assert_eq!(template_stem("a.j3"), None);
    assert_eq!(template_stem("a.j2x"), None);
    assert_eq!(template_stem("j2"), None);
}
