use psdevbot::html::{equal_text, first_line_of, format_title, issue_anchor};

#[test]
fn titles_are_escaped_and_issues_linked() {
    assert_eq!(
        format_title("<b> fixes #1 and #23, not # or #x", "http://r/a'b"),
        [
            "&lt;b&gt; fixes <a href='http://r/a&#x27;b/issues/1'>#1</a> and ",
            "<a href='http://r/a&#x27;b/issues/23'>#23</a>, not # or #x",
        ].concat()
    );
    assert_eq!(format_title("\"q\" & 'a'", "u"), "&quot;q&quot; &amp; &#x27;a&#x27;");
    assert_eq!(issue_anchor("u", "5"), "<a href='u/issues/5'>#5</a>");
}

#[test]
fn text_helpers() {
    assert!(equal_text("abc", "abc"));
    assert!(!equal_text("abc", "abd"));
    assert_eq!(first_line_of("one\ntwo"), "one");
    assert_eq!(first_line_of(""), "");
}
