use mailroom::templates::{
    Block, CodeBlock, Cta, EmailDocument, Field, GroupBody, GroupCard, RecordCard, Theme,
};

fn sample_doc() -> EmailDocument {
    EmailDocument {
        subject: "Sample".into(),
        preheader: "Sample preheader.".into(),
        eyebrow: Some("Group test".into()),
        heading: "Sample document".into(),
        intro: Some("Intro paragraph.".into()),
        blocks: vec![
            Block::Group(GroupCard {
                eyebrow: "Group A".into(),
                title: "First group".into(),
                subtitle: Some("With a subtitle.".into()),
                body: GroupBody::Fields {
                    fields: vec![
                        Field {
                            label: "Host".into(),
                            value: "outreach".into(),
                            mono: true,
                        },
                        Field {
                            label: "Type".into(),
                            value: "TXT".into(),
                            mono: true,
                        },
                    ],
                },
                how_to: Some("After publishing, run <code>dig +short</code>.".into()),
            }),
            Block::Group(GroupCard {
                eyebrow: "Group B".into(),
                title: "Records — nested".into(),
                subtitle: None,
                body: GroupBody::Records {
                    records: vec![
                        RecordCard {
                            eyebrow: "Record 1 of 2".into(),
                            primary_label: "outreach".into(),
                            type_tag: Some("A".into()),
                            value: "207.246.86.218".into(),
                            note: None,
                        },
                        RecordCard {
                            eyebrow: "Record 2 of 2".into(),
                            primary_label: "outreach._domainkey.outreach".into(),
                            type_tag: Some("TXT".into()),
                            value: "v=DKIM1; ...".into(),
                            note: Some("One continuous string — do not split.".into()),
                        },
                    ],
                },
                how_to: None,
            }),
            Block::SectionHeading {
                text: "Verification".into(),
            },
            Block::Code(CodeBlock {
                eyebrow: None,
                lines: vec!["dig +short A example.com".into()],
            }),
            Block::Cta(Cta {
                label: "View dashboard".into(),
                href: "https://example.com/dashboard".into(),
            }),
        ],
        footer_lines: vec!["Source of truth: example.com/spec".into()],
    }
}

#[test]
fn html_renders_doctype_and_heading() {
    let doc = sample_doc();
    let h = doc.render_html();
    assert!(h.contains("<!DOCTYPE html>"));
    assert!(h.contains("Sample document"));
    assert!(h.contains("First group"));
    assert!(h.contains("dig +short A example.com"));
}

#[test]
fn html_no_style_blocks_or_external_assets() {
    let h = sample_doc().render_html();
    assert!(!h.contains("<style"));
    assert!(!h.contains("<link "));
    assert!(!h.contains("<script"));
}

#[test]
fn html_renders_nested_records_as_individual_cards() {
    let h = sample_doc().render_html();
    // Each RecordCard's primary_label should appear once per record.
    assert!(h.contains("outreach._domainkey.outreach"));
    assert!(h.contains("Record 1 of 2"));
    assert!(h.contains("Record 2 of 2"));
    // The TYPE tag should render as a pill.
    assert!(h.contains(">TXT<"));
}

#[test]
fn plain_renders_all_content() {
    let doc = sample_doc();
    let p = doc.render_plain();
    assert!(p.contains("Sample document"));
    assert!(p.contains("First group"));
    assert!(p.contains("Host: outreach"));
    assert!(p.contains("dig +short A example.com"));
    assert!(p.contains("Verification"));
    // Nested records render as numbered list with type-tag.
    assert!(p.contains("outreach._domainkey.outreach"));
}

#[test]
fn html_escapes_user_content() {
    let mut doc = sample_doc();
    doc.heading = "<script>alert(1)</script>".into();
    let h = doc.render_html();
    assert!(!h.contains("<script>alert(1)"));
    assert!(h.contains("&lt;script&gt;"));
}

#[test]
fn html_includes_preheader_hidden_text() {
    let doc = sample_doc();
    let h = doc.render_html();
    assert!(h.contains("Sample preheader."));
    assert!(h.contains("mso-hide:all"));
}

#[test]
fn cta_renders_as_anchor_button() {
    let h = sample_doc().render_html();
    assert!(h.contains("View dashboard"));
    assert!(h.contains("href=\"https://example.com/dashboard\""));
}

#[test]
fn default_html_uses_plausiden_chrome() {
    let h = sample_doc().render_html();
    assert!(h.contains("PlausiDen"));
    assert!(h.contains("Plausible. Defensible."));
    assert!(h.contains("plausiden.com"));
    assert!(h.contains("team@plausiden.com"));
}

#[test]
fn explicit_theme_renders_alternate_chrome() {
    let h = sample_doc().render_html_with_theme(&Theme::sacredvote());
    // SacredVote chrome instead of PlausiDen
    assert!(h.contains("SacredVote"));
    assert!(h.contains("Defending the ballot."));
    assert!(h.contains("sacred.vote"));
    // Should NOT contain PlausiDen footer
    assert!(!h.contains("PlausiDen LLC"));
}

#[test]
fn custom_theme_propagates_brand_color() {
    let mut t = Theme::plausiden();
    t.brand_primary = "#ff00aa".into();
    let h = sample_doc().render_html_with_theme(&t);
    // Color shows up at multiple touch points (pill, button, links).
    assert!(
        h.matches("#ff00aa").count() >= 3,
        "expected brand_primary in multiple places, got {} occurrences",
        h.matches("#ff00aa").count()
    );
}

#[test]
fn plain_field_lines_wrap_at_78_columns() {
    let doc = EmailDocument {
        subject: "s".into(),
        preheader: "p".into(),
        eyebrow: None,
        heading: "Report".into(),
        intro: None,
        blocks: vec![Block::Group(GroupCard {
            eyebrow: "A".into(),
            title: "B".into(),
            subtitle: None,
            body: GroupBody::Fields {
                fields: vec![
                    Field { label: "Note".into(), value: "word ".repeat(30).trim_end().into(), mono: false },
                    Field { label: "Key".into(), value: "k".repeat(90), mono: true },
                ],
            },
            how_to: None,
        })],
        footer_lines: vec![],
    };
    let plain = doc.render_plain();
    let note_lines: Vec<&str> = plain.lines().filter(|l| l.contains("word")).collect();
    assert!(note_lines.len() >= 2);
    assert!(note_lines[0].starts_with("  Note: word"));
    for line in &note_lines {
        assert!(line.chars().count() <= 78, "too long: {line:?}");
        assert!(line.starts_with("  "));
    }
    assert!(plain.contains(&format!("  Key: {}\n", "k".repeat(90))));
}

#[test]
fn default_html_is_the_plausiden_theme() {
    let doc = sample_doc();
    let html = doc.render_html();
    assert_eq!(html, doc.render_html_with_theme(&Theme::plausiden()));
    for s in ["<!DOCTYPE html>", "PlausiDen", "Plausible. Defensible.", "plausiden.com", "team@plausiden.com"] {
        assert!(html.contains(s), "missing {s}");
    }
}
