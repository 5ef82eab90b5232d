use regex::Regex;
use xkcdwat::annotation::annotate;
use xkcdwat::engine::{find_image_tags, validate, ALT_GROUP, IMAGE_PATTERN};
use xkcdwat::image_tag::{locates_image_tag, RewriteMatch};
use xkcdwat::rewriter::{rewrite, rewrite_with};

/// The same insertion, made by the expression engine's own template expansion.
fn by_template(text: &str) -> String {
    let expression = Regex::new(IMAGE_PATTERN).unwrap();
    expression
        .replace_all(text, "\n$0\n&lt;p&gt;alt-text: $alt&lt;/p&gt;\n")
        .to_string()
}

#[test]
fn tag_is_kept_and_followed_by_its_alt_text() {
    let text = "<description>&lt;img src=\"x.png\" alt=\"A stick figure\"&gt;</description>";
    let out = rewrite(text);
    assert_eq!(
        out,
        "<description>\n&lt;img src=\"x.png\" alt=\"A stick figure\"&gt;\n&lt;p&gt;alt-text: A stick figure&lt;/p&gt;\n</description>"
    );
    assert_eq!(out, by_template(text));
}

#[test]
fn text_without_alt_is_unchanged() {
    let text = "<item>&lt;img src=\"x.png\"&gt; &lt;p&gt;no attribute here&lt;/p&gt;</item>";
    assert_eq!(rewrite(text), text);
    assert_eq!(rewrite(""), "");
}

#[test]
fn matches_keep_their_order_and_their_own_alt_text() {
    let text = "a&lt;img alt=\"one\"&gt;b&lt;img src=\"s\" alt=\"two\" title=\"t\"&gt;c";
    let out = rewrite(text);
    assert_eq!(
        out,
        "a\n&lt;img alt=\"one\"&gt;\n&lt;p&gt;alt-text: one&lt;/p&gt;\nb\n&lt;img src=\"s\" alt=\"two\" title=\"t\"&gt;\n&lt;p&gt;alt-text: two&lt;/p&gt;\nc"
    );
    let first: usize = out.find("alt-text: one").unwrap();
    let second: usize = out.find("alt-text: two").unwrap();
    assert!(first < second);
    assert_eq!(out, by_template(text));
}

#[test]
fn empty_alt_gives_an_empty_paragraph() {
    let text = "&lt;img src=\"x.png\" alt=\"\"&gt;";
    assert_eq!(
        rewrite(text),
        "\n&lt;img src=\"x.png\" alt=\"\"&gt;\n&lt;p&gt;alt-text: &lt;/p&gt;\n"
    );
}

#[test]
fn single_quotes_and_bare_values_do_not_match() {
    let single = "&lt;img src='x.png' alt='A'&gt;";
    assert_eq!(rewrite(single), single);
    let bare = "&lt;img src=x.png alt=A&gt;";
    assert_eq!(rewrite(bare), bare);
}

#[test]
fn a_tag_does_not_cross_a_line_break() {
    let text = "&lt;img src=\"x.png\"\n alt=\"A\"&gt;";
    assert_eq!(rewrite(text), text);
    assert_eq!(rewrite(text), by_template(text));
}

#[test]
fn agrees_with_the_template_on_mixed_text() {
    let samples = [
        "&lt;img alt=\"a\" alt=\"b\"&gt;",
        "&lt;img title=\"x alt=\"y\"&gt;",
        "&lt;img&lt;img src=\"1\" alt=\"q\"&gt;&gt;",
        "&lt;img alt=\"unterminated",
        "&lt;img alt=\"v\" and no end",
        "&lt;img alt=\"v\"&gt;&lt;img alt=\"w\"&gt;",
        "&lt;img src=\"é.png\" alt=\"Ünïcödé — ✓\" title=\"日本語\"&gt; ü",
        "x &lt;img alt=\"\"&gt; y &lt;img alt=\"&quot;q&quot;\"&gt;\n&lt;img\talt=\"tab\"&gt;",
        "&lt;img src=\"a\"&gt; &lt;img src=\"b\" alt=\"second\"&gt;",
        "&lt;imgx alt=\"A\"&gt;\r\n&lt;img alt=\"B\"\r&gt;",
        " alt=\"A\"&gt;",
    ];
    for text in samples {
        assert_eq!(rewrite(text), by_template(text), "on {:?}", text);
    }
}

#[test]
fn annotate_inserts_at_the_given_match() {
    let text = b"&lt;img alt=\"A\"&gt;";
    let m = RewriteMatch { tag_start: 0, tag_end: 19, alt_start: 13, alt_end: 14 };
    assert!(locates_image_tag(text, m));
    assert_eq!(
        annotate(text, &[m]),
        b"\n&lt;img alt=\"A\"&gt;\n&lt;p&gt;alt-text: A&lt;/p&gt;\n".to_vec()
    );
    assert_eq!(annotate(text, &[]), text.to_vec());
}

#[test]
fn captures_that_are_no_image_tag_are_refused() {
    let text = "&lt;img alt=\"A\"&gt; tail";
    let good = vec![(Some((0, 19)), Some((13, 14)))];
    assert_eq!(
        validate(text.as_bytes(), &good),
        Some(vec![RewriteMatch { tag_start: 0, tag_end: 19, alt_start: 13, alt_end: 14 }])
    );
    assert_eq!(
        rewrite_with(text, Some(good.clone())),
        "\n&lt;img alt=\"A\"&gt;\n&lt;p&gt;alt-text: A&lt;/p&gt;\n tail"
    );
    // a group that took no part, a tag that ends early, offsets past the end, overlap
    assert_eq!(rewrite_with(text, Some(vec![(Some((0, 19)), None)])), text);
    assert_eq!(rewrite_with(text, Some(vec![(None, Some((13, 14)))])), text);
    assert_eq!(rewrite_with(text, Some(vec![(Some((0, 18)), Some((13, 14)))])), text);
    assert_eq!(rewrite_with(text, Some(vec![(Some((0, 19)), Some((12, 14)))])), text);
    assert_eq!(rewrite_with(text, Some(vec![(Some((0, 190)), Some((13, 14)))])), text);
    assert_eq!(rewrite_with(text, Some(vec![(Some((1, 19)), Some((13, 14)))])), text);
    let twice = vec![(Some((0, 19)), Some((13, 14))), (Some((0, 19)), Some((13, 14)))];
    assert_eq!(rewrite_with(text, Some(twice)), text);
    assert_eq!(rewrite_with(text, None), text);
    assert_eq!(rewrite_with(text, Some(vec![])), text);
}

#[test]
fn the_engine_reports_tag_and_alt_text_by_their_offsets() {
    assert_eq!(ALT_GROUP, "alt");
    let text = "é &lt;img alt=\"A\"&gt; &lt;img src=\"s\" alt=\"\"&gt;";
    assert_eq!(
        find_image_tags(text),
        Some(vec![(Some((3, 22)), Some((16, 17))), (Some((23, 49)), Some((44, 44)))])
    );
    assert_eq!(find_image_tags("no tag"), Some(vec![]));
}

#[test]
fn offsets_that_locate_no_tag_are_told_apart() {
    let text = b"&lt;img src=\"s\" alt=\"A\" title=\"t\"&gt; &gt;";
    let m = RewriteMatch { tag_start: 0, tag_end: 37, alt_start: 21, alt_end: 22 };
    assert!(locates_image_tag(text, m));
    assert!(!locates_image_tag(text, RewriteMatch { tag_end: 42, ..m }));
    assert!(!locates_image_tag(text, RewriteMatch { alt_end: 24, ..m }));
    assert!(!locates_image_tag(text, RewriteMatch { alt_start: 20, ..m }));
    assert!(!locates_image_tag(text, RewriteMatch { tag_start: 1, ..m }));
    assert!(!locates_image_tag(text, RewriteMatch { alt_start: 0, ..m }));
    assert!(!locates_image_tag(text, RewriteMatch { tag_end: 0, ..m }));
    assert!(!locates_image_tag(
        text,
        RewriteMatch { tag_start: usize::MAX, tag_end: usize::MAX, alt_start: 8, alt_end: 9 }
    ));
    let broken = b"&lt;img\n alt=\"A\"&gt;";
    assert!(!locates_image_tag(
        broken,
        RewriteMatch { tag_start: 0, tag_end: 20, alt_start: 14, alt_end: 15 }
    ));
}

#[test]
fn agrees_with_the_template_on_generated_text() {
    let pieces = [
        "&lt;img", " alt=\"", "\"", "&gt;", "\n", "x", " ", "é", "&lt;", "alt", "=", "&", "\r",
        "✓", " alt='", " src=\"a\"", "gt;", "&lt;img alt=\"", "\"&gt;",
    ];
    let mut state: u64 = 0x2545_f491_4f6c_dd1d;
    let mut next = move || {
        state = state.wrapping_mul(6364136223846793005).wrapping_add(1442695040888963407);
        (state >> 33) as usize
    };
    let mut annotated: u32 = 0;
    for _ in 0..4000 {
        let count: usize = next() % 14;
        let mut text = String::new();
        for _ in 0..count {
            text.push_str(pieces[next() % pieces.len()]);
        }
        let out = rewrite(&text);
        assert_eq!(out, by_template(&text), "on {:?}", text);
        if out != text {
            annotated += 1;
        }
    }
    assert!(annotated > 100);
}

#[test]
fn annotate_works_on_any_spans_in_order() {
    let text = b"0123456789";
    let first = RewriteMatch { tag_start: 1, tag_end: 3, alt_start: 2, alt_end: 3 };
    let second = RewriteMatch { tag_start: 3, tag_end: 10, alt_start: 5, alt_end: 5 };
    assert_eq!(
        annotate(text, &[first, second]),
        b"0\n12\n&lt;p&gt;alt-text: 2&lt;/p&gt;\n\n3456789\n&lt;p&gt;alt-text: &lt;/p&gt;\n".to_vec()
    );
}

#[test]
fn a_tag_inside_an_alt_text_is_part_of_that_alt_text() {
    let text = "&lt;img alt=\"&lt;img alt=\"X\"&gt;";
    let out = rewrite(text);
    assert_eq!(
        out,
        "\n&lt;img alt=\"&lt;img alt=\"X\"&gt;\n&lt;p&gt;alt-text: &lt;img alt=&lt;/p&gt;\n"
    );
    assert!(!out.contains("alt-text: X"));
    assert_eq!(out, by_template(text));
}
