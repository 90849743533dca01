use mailroom::templates::Theme;
use mailroom::tools::alert_cli::OutputMode;
use mailroom::tools::tpl_cli::{TplArgs, parse_args, select_theme};

#[test]
fn parse_args_defaults_to_html_no_theme() {
    let argv = vec!["mail-tpl".into()];
    match parse_args(&argv).unwrap() {
        TplArgs::Render { mode, theme } => {
            assert_eq!(mode, OutputMode::Html);
            assert!(theme.is_none());
        }
        _ => panic!("expected Render"),
    }
}

#[test]
fn parse_args_handles_plain_flag() {
    let argv = vec!["mail-tpl".into(), "--plain".into()];
    match parse_args(&argv).unwrap() {
        TplArgs::Render { mode, .. } => assert_eq!(mode, OutputMode::Plain),
        _ => panic!(),
    }
}

#[test]
fn parse_args_handles_theme_arg() {
    let argv = vec!["mail-tpl".into(), "--theme".into(), "sacredvote".into()];
    match parse_args(&argv).unwrap() {
        TplArgs::Render { theme, .. } => {
            assert_eq!(theme.as_deref(), Some("sacredvote"));
        }
        _ => panic!(),
    }
}

#[test]
fn parse_args_help_short_and_long() {
    for flag in ["-h", "--help"] {
        let argv = vec!["mail-tpl".into(), flag.into()];
        assert!(matches!(parse_args(&argv), Ok(TplArgs::Help)));
    }
}

#[test]
fn select_theme_resolves_known_names() {
    assert_eq!(
        select_theme(Some("plausiden")).brand_name,
        Theme::plausiden().brand_name
    );
    assert_eq!(
        select_theme(Some("sacredvote")).brand_name,
        Theme::sacredvote().brand_name
    );
    // Default (None) falls back to plausiden.
    assert_eq!(select_theme(None).brand_name, Theme::plausiden().brand_name);
}

#[test]
fn select_theme_unknown_falls_back_to_plausiden() {
    assert_eq!(
        select_theme(Some("nonexistent")).brand_name,
        Theme::plausiden().brand_name
    );
}
