//! The page that tells what the relay is: a Markdown text, rendered as HTML.

use vstd::prelude::*;

verus! {

/// The HTML that the `pulldown-cmark` crate renders for a Markdown text,
/// with none of its extensions switched on.
pub uninterp spec fn rendered_html(markdown: Seq<char>) -> Seq<char>;

/// `pulldown_cmark::Parser::new` on `markdown`, and
/// `pulldown_cmark::html::push_html` of its events into an empty text.
/// Nothing is claimed of the result but that it depends on `markdown`
/// alone.
#[verifier::external_body]
fn render(markdown: &str) -> (html: String)
    ensures
        html@ == rendered_html(markdown@),
{
    let mut html = String::new();
    pulldown_cmark::html::push_html(&mut html, pulldown_cmark::Parser::new(markdown));
    html
}

/// The page, as HTML, for the Markdown text it is written in.
pub fn readme(markdown: &str) -> (html: String)
    ensures
        html@ == rendered_html(markdown@),
{
    render(markdown)
}

} // verus!
