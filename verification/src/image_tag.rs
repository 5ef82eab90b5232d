//! Escaped image tags with an `alt` attribute.
//!
//! A feed carries its HTML escaped, so an image tag reads
//! `&lt;img ... alt="..." ...&gt;`. This module says what such a tag is,
//! byte for byte, and tests whether given offsets locate one.

use crate::search::{find_from, first_at, is_first_at, matches_at, occurs_at};
use crate::text::{
    bytes_of, lemma_occurrence_ends_on_boundary, lemma_occurrence_starts_on_boundary,
};
use vstd::prelude::*;
use vstd::utf8::*;

verus! {

/// How an escaped image tag begins.
pub const TAG_OPEN: &'static str = "&lt;img";

/// What stands before the value of an `alt` attribute.
pub const ALT_OPEN: &'static str = " alt=\"";

/// What ends the value of an attribute.
pub const QUOTE: &'static str = "\"";

/// How an escaped tag ends.
pub const TAG_CLOSE: &'static str = "&gt;";

/// The line break: no tag goes across one.
pub const LINE_BREAK: &'static str = "\n";

/// An escaped image tag with an `alt` attribute, located in a text:
/// the byte offsets of the tag and of the attribute's value.
#[derive(Clone, Copy, Debug, PartialEq, Eq, Structural)]
pub struct RewriteMatch {
    /// Where the tag begins.
    pub tag_start: usize,
    /// Where the tag ends (exclusive).
    pub tag_end: usize,
    /// Where the alt text begins.
    pub alt_start: usize,
    /// Where the alt text ends (exclusive): the offset of its closing quote.
    pub alt_end: usize,
}

/// `m` locates an escaped image tag with an `alt` attribute in `text`:
/// the tag begins with `&lt;img`; its alt text begins after the first
/// ` alt="` that follows and runs up to the next `"`; the tag ends with the
/// first `&gt;` after that quote; and no line break stands inside the tag.
pub open spec fn is_image_tag(text: Seq<u8>, m: RewriteMatch) -> bool {
    &&& occurs_at(text, bytes_of(TAG_OPEN@), m.tag_start as int)
    &&& first_at(
        text,
        bytes_of(ALT_OPEN@),
        m.tag_start + bytes_of(TAG_OPEN@).len(),
        m.alt_start - bytes_of(ALT_OPEN@).len(),
    )
    &&& first_at(text, bytes_of(QUOTE@), m.alt_start as int, m.alt_end as int)
    &&& first_at(
        text,
        bytes_of(TAG_CLOSE@),
        m.alt_end + bytes_of(QUOTE@).len(),
        m.tag_end - bytes_of(TAG_CLOSE@).len(),
    )
    &&& forall|at: int|
        m.tag_start <= at < m.tag_end ==> !occurs_at(text, bytes_of(LINE_BREAK@), at)
}

/// The tag that `m` locates, as it stands in the text.
pub open spec fn tag_of(text: Seq<u8>, m: RewriteMatch) -> Seq<u8> {
    text.subrange(m.tag_start as int, m.tag_end as int)
}

/// The alt text that `m` locates.
pub open spec fn alt_of(text: Seq<u8>, m: RewriteMatch) -> Seq<u8> {
    text.subrange(m.alt_start as int, m.alt_end as int)
}

/// An image tag lies inside the text, and its alt text inside the tag.
pub proof fn lemma_image_tag_bounds(text: Seq<u8>, m: RewriteMatch)
    requires
        is_image_tag(text, m),
    ensures
        m.tag_start < m.alt_start <= m.alt_end < m.tag_end <= text.len(),
{
    lemma_tag_pieces();
}

/// Two image tags that begin at the same offset are the same.
pub proof fn lemma_image_tag_by_its_start(text: Seq<u8>, a: RewriteMatch, b: RewriteMatch)
    requires
        is_image_tag(text, a),
        is_image_tag(text, b),
        a.tag_start == b.tag_start,
    ensures
        a == b,
{
    crate::search::lemma_first_at_unique(
        text,
        bytes_of(ALT_OPEN@),
        a.tag_start + bytes_of(TAG_OPEN@).len(),
        a.alt_start - bytes_of(ALT_OPEN@).len(),
        b.alt_start - bytes_of(ALT_OPEN@).len(),
    );
    crate::search::lemma_first_at_unique(
        text,
        bytes_of(QUOTE@),
        a.alt_start as int,
        a.alt_end as int,
        b.alt_end as int,
    );
    crate::search::lemma_first_at_unique(
        text,
        bytes_of(TAG_CLOSE@),
        a.alt_end + bytes_of(QUOTE@).len(),
        a.tag_end - bytes_of(TAG_CLOSE@).len(),
        b.tag_end - bytes_of(TAG_CLOSE@).len(),
    );
}

/// The pieces that a tag is recognised by are not empty, and they are UTF-8.
pub proof fn lemma_tag_pieces()
    ensures
        bytes_of(TAG_OPEN@).len() > 0,
        bytes_of(ALT_OPEN@).len() > 0,
        bytes_of(QUOTE@).len() > 0,
        bytes_of(TAG_CLOSE@).len() > 0,
        valid_utf8(bytes_of(TAG_OPEN@)),
        valid_utf8(bytes_of(ALT_OPEN@)),
        valid_utf8(bytes_of(QUOTE@)),
        valid_utf8(bytes_of(TAG_CLOSE@)),
{
    reveal_strlit("&lt;img");
    reveal_strlit(" alt=\"");
    reveal_strlit("\"");
    reveal_strlit("&gt;");
    encode_utf8_valid_utf8(TAG_OPEN@);
    encode_utf8_valid_utf8(ALT_OPEN@);
    encode_utf8_valid_utf8(QUOTE@);
    encode_utf8_valid_utf8(TAG_CLOSE@);
}

/// In a UTF-8 text an image tag and its alt text begin and end on
/// character boundaries.
pub proof fn lemma_image_tag_on_boundaries(text: Seq<u8>, m: RewriteMatch)
    requires
        valid_utf8(text),
        is_image_tag(text, m),
    ensures
        is_char_boundary(text, m.tag_start as int),
        is_char_boundary(text, m.alt_start as int),
        is_char_boundary(text, m.alt_end as int),
        is_char_boundary(text, m.tag_end as int),
{
    lemma_tag_pieces();
    lemma_occurrence_starts_on_boundary(text, bytes_of(TAG_OPEN@), m.tag_start as int);
    lemma_occurrence_ends_on_boundary(
        text,
        bytes_of(ALT_OPEN@),
        m.alt_start - bytes_of(ALT_OPEN@).len(),
    );
    lemma_occurrence_starts_on_boundary(text, bytes_of(QUOTE@), m.alt_end as int);
    lemma_occurrence_ends_on_boundary(
        text,
        bytes_of(TAG_CLOSE@),
        m.tag_end - bytes_of(TAG_CLOSE@).len(),
    );
}

/// Tells whether `m` locates an escaped image tag with an `alt` attribute in `text`.
pub fn locates_image_tag(text: &[u8], m: RewriteMatch) -> (holds: bool)
    ensures
        holds == is_image_tag(text@, m),
{
    let tag_open = TAG_OPEN.as_bytes();
    let alt_open = ALT_OPEN.as_bytes();
    let quote = QUOTE.as_bytes();
    let tag_close = TAG_CLOSE.as_bytes();
    let line_break = LINE_BREAK.as_bytes();
    assert(text@.len() == text.len());
    if !matches_at(text, tag_open, m.tag_start) {
        return false;
    }
    if m.alt_start < alt_open.len() || !is_first_at(
        text,
        alt_open,
        m.tag_start + tag_open.len(),
        m.alt_start - alt_open.len(),
    ) {
        return false;
    }
    if !is_first_at(text, quote, m.alt_start, m.alt_end) {
        return false;
    }
    if m.tag_end < tag_close.len() || !is_first_at(
        text,
        tag_close,
        m.alt_end + quote.len(),
        m.tag_end - tag_close.len(),
    ) {
        return false;
    }
    match find_from(text, line_break, m.tag_start) {
        Some(at) => {
            if at >= m.tag_end {
                assert(is_image_tag(text@, m));
                true
            } else {
                assert(occurs_at(text@, bytes_of(LINE_BREAK@), at as int));
                false
            }
        },
        None => {
            assert(is_image_tag(text@, m));
            true
        },
    }
}

} // verus!
