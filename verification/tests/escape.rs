use mailroom::templates::escape::html;

#[test]
fn escapes_metacharacters() {
    assert_eq!(html("<a>"), "&lt;a&gt;");
    assert_eq!(html("a&b"), "a&amp;b");
    assert_eq!(html("\"x\""), "&quot;x&quot;");
    assert_eq!(html("'x'"), "&#39;x&#39;");
}

#[test]
fn passes_unicode_through() {
    // Smart-quotes, dashes, em-dash should not be normalized.
    let s = "“PlausiDen” · café — résumé";
    assert_eq!(html(s), s);
}
