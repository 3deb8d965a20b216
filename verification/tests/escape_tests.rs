use todo_list::escape::escape_text;

#[test]
fn escape_plain_text_unchanged() {
    assert_eq!(escape_text("hello"), "hello");
    assert_eq!(escape_text("Buy milk"), "Buy milk");
}

#[test]
fn escape_empty() {
    assert_eq!(escape_text(""), "");
}

#[test]
fn escape_script_tag() {
    assert_eq!(escape_text("<script>"), "&lt;script&gt;");
}

#[test]
fn escape_all_special_characters() {
    assert_eq!(
        escape_text("<a href='test'>Test</a>"),
        "&lt;a href=&#39;test&#39;&gt;Test&lt;/a&gt;"
    );
    assert_eq!(escape_text("a&b"), "a&amp;b");
    assert_eq!(escape_text("say \"hi\""), "say &quot;hi&quot;");
}

#[test]
fn escape_newline_becomes_line_break() {
    assert_eq!(escape_text("a\nb"), "a<br />b");
    assert_eq!(escape_text("\n\n"), "<br /><br />");
}

#[test]
fn escape_sql_text_kept_as_literal_text() {
    assert_eq!(
        escape_text("'); DROP TABLE todo; --"),
        "&#39;); DROP TABLE todo; --"
    );
}

#[test]
fn escape_matches_reference_escaper() {
    // The display form is exactly the reference HTML escaper followed by
    // the newline-to-line-break replacement.
    let samples = [
        "hello",
        "",
        "<script type=\"text/javascript\">alert('1')</script>",
        "a&b<c>d\"e'f",
        "line one\nline two\n",
        "'); DROP TABLE todo; --",
    ];
    for s in samples {
        let expected = concatsql::html_special_chars(s).replace('\n', "<br />");
        assert_eq!(escape_text(s), expected);
    }
}

#[test]
fn escape_unicode_passes_through() {
    assert_eq!(escape_text("héllo wörld ✓"), "héllo wörld ✓");
}
