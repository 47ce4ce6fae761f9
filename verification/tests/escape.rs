use dds_workbench::report::escape::escape_html;

#[test]
fn escape_html_handles_all_special_chars() {
    // 5 種特殊文字すべて変換されること。
    assert_eq!(escape_html("<"), "&lt;");
    assert_eq!(escape_html(">"), "&gt;");
    assert_eq!(escape_html("&"), "&amp;");
    assert_eq!(escape_html("\""), "&quot;");
    assert_eq!(escape_html("'"), "&#39;");
    assert_eq!(
        escape_html("<a href=\"x'y&z\">"),
        "&lt;a href=&quot;x&#39;y&amp;z&quot;&gt;"
    );
}

#[test]
fn escape_html_passes_through_japanese_and_ascii() {
    // 日本語マルチバイトや ASCII の英数字はそのまま通過。
    assert_eq!(escape_html("日本語"), "日本語");
    assert_eq!(escape_html("abc 123"), "abc 123");
    assert_eq!(escape_html("写真_001.png"), "写真_001.png");
    assert_eq!(escape_html(""), "");
}

#[test]
fn escape_html_prevents_basic_xss() {
    // XSS 防止の代表例: script タグや属性 injection。
    let payload = "<script>alert('x')</script>";
    let escaped = escape_html(payload);
    assert!(!escaped.contains("<script>"));
    assert!(!escaped.contains("</script>"));
    assert!(escaped.contains("&lt;script&gt;"));
}

#[test]
fn escape_html_leaves_no_markup_characters() {
    let escaped = escape_html("<a title='x' href=\"y\">&</a>");
    assert!(!escaped.contains('<'));
    assert!(!escaped.contains('>'));
    assert!(!escaped.contains('"'));
    assert!(!escaped.contains('\''));
    assert_eq!(escaped, "&lt;a title=&#39;x&#39; href=&quot;y&quot;&gt;&amp;&lt;/a&gt;");
}
