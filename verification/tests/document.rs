use xkcdwat::document::readme;

#[test]
fn markdown_is_rendered_as_html() {
    assert_eq!(readme("# hello\n\n* alpha\n* beta\n"), "<h1>hello</h1>\n<ul>\n<li>alpha</li>\n<li>beta</li>\n</ul>\n");
    assert_eq!(readme("a *b* `c`"), "<p>a <em>b</em> <code>c</code></p>\n");
    assert_eq!(readme(""), "");
}
