use mailroom::templates::render_plain::{strip_tags, wrap};

#[test]
fn wrap_breaks_on_word_boundary() {
    let s = wrap("the quick brown fox jumped over the lazy dog", 20);
    for line in s.lines() {
        assert!(line.chars().count() <= 20, "line too long: {line:?}");
    }
}

#[test]
fn wrap_keeps_long_tokens() {
    // URLs / base64 are not split.
    let url = "https://example.com/very/long/path/that/exceeds/twenty/columns";
    let s = wrap(url, 20);
    assert!(s.contains(url), "long token should pass through: {s:?}");
}

#[test]
fn strip_tags_drops_inline_code() {
    assert_eq!(strip_tags("run <code>dig</code> first"), "run dig first");
}
