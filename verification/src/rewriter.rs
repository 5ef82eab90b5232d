//! The rewriter: after every escaped image tag that carries an `alt`
//! attribute, a paragraph with the attribute's value is inserted.
//!
//! The tags are those that the expression engine finds and that pass the
//! test of being an image tag. Where what the engine reports does not pass,
//! or nothing could be searched, the text is left as it is.

use crate::annotation::{
    annotate, annotated, annotation_offset, lemma_annotated_is_utf8,
    lemma_tag_kept_and_followed_by_its_alt_text, lemma_well_formed_in_order, paragraph,
};
use crate::engine::{
    accepted, captures_of, find_image_tags, match_of, matches_of, reported, validate, Capture,
    ALT_GROUP, IMAGE_PATTERN,
};
use crate::image_tag::{alt_of, is_image_tag, tag_of, ALT_OPEN, LINE_BREAK};
use crate::search::{occurs, occurs_at};
use crate::text::{bytes_of, text_of_utf8};
use vstd::prelude::*;
use vstd::utf8::*;

verus! {

/// The bytes of the rewritten text, given what the expression engine
/// found in it: the annotated text where the captures are accepted, the
/// text as it is where they are not, or where nothing could be searched.
pub open spec fn rewritten(text: Seq<u8>, found: Option<Seq<Capture>>) -> Seq<u8> {
    match found {
        Some(captures) => if accepted(text, captures) {
            annotated(text, matches_of(captures))
        } else {
            text
        },
        None => text,
    }
}

/// A text in which ` alt="` occurs nowhere is left as it is, whatever the
/// expression engine reports.
pub proof fn lemma_unchanged_without_alt(text: Seq<u8>, found: Option<Seq<Capture>>)
    requires
        !occurs(text, bytes_of(ALT_OPEN@)),
    ensures
        rewritten(text, found) == text,
{
    if let Some(captures) = found {
        if accepted(text, captures) {
            let matches = matches_of(captures);
            if matches.len() > 0 {
                assert(is_image_tag(text, matches[0]));
                assert(occurs_at(
                    text,
                    bytes_of(ALT_OPEN@),
                    matches[0].alt_start - bytes_of(ALT_OPEN@).len(),
                ));
            }
            assert(annotated(text, matches) =~= text);
        }
    }
}

/// Where the captures are accepted, each of them has its tag kept in the
/// rewritten text, followed by a line break and the paragraph with its own
/// alt text.
pub proof fn lemma_rewritten_keeps_tags(text: Seq<u8>, captures: Seq<Capture>, i: int)
    requires
        accepted(text, captures),
        0 <= i < captures.len(),
    ensures
        match_of(captures[i]) matches Some(m) && occurs_at(
            rewritten(text, Some(captures)),
            tag_of(text, m) + bytes_of(LINE_BREAK@) + paragraph(alt_of(text, m)),
            annotation_offset(text, matches_of(captures), i) + bytes_of(LINE_BREAK@).len(),
        ),
{
    lemma_well_formed_in_order(text, matches_of(captures));
    lemma_tag_kept_and_followed_by_its_alt_text(text, matches_of(captures), i);
}

/// Rewrites a feed, given what the expression engine found in it.
pub fn rewrite_with(feed_markup: &str, found: Option<Vec<Capture>>) -> (out: String)
    ensures
        bytes_of(out@) == rewritten(bytes_of(feed_markup@), reported(found)),
        out@ == decode_utf8(rewritten(bytes_of(feed_markup@), reported(found))),
        !occurs(bytes_of(feed_markup@), bytes_of(ALT_OPEN@)) ==> out@ == feed_markup@,
{
    proof {
        encode_utf8_decode_utf8(feed_markup@);
        if !occurs(bytes_of(feed_markup@), bytes_of(ALT_OPEN@)) {
            lemma_unchanged_without_alt(bytes_of(feed_markup@), reported(found));
        }
    }
    let text = feed_markup.as_bytes();
    let checked = match found {
        Some(captures) => validate(text, captures.as_slice()),
        None => None,
    };
    match checked {
        Some(matches) => {
            proof {
                lemma_well_formed_in_order(text@, matches@);
                encode_utf8_valid_utf8(feed_markup@);
                lemma_annotated_is_utf8(text@, matches@);
            }
            let bytes = annotate(text, matches.as_slice());
            text_of_utf8(bytes)
        },
        None => feed_markup.to_owned(),
    }
}

/// Rewrites a feed: after each escaped image tag with an `alt` attribute
/// that the expression engine finds, the paragraph with its alt text is
/// inserted.
pub fn rewrite(feed_markup: &str) -> (out: String)
    ensures
        bytes_of(out@) == rewritten(
            bytes_of(feed_markup@),
            captures_of(IMAGE_PATTERN@, ALT_GROUP@, feed_markup@),
        ),
        out@ == decode_utf8(
            rewritten(
                bytes_of(feed_markup@),
                captures_of(IMAGE_PATTERN@, ALT_GROUP@, feed_markup@),
            ),
        ),
        !occurs(bytes_of(feed_markup@), bytes_of(ALT_OPEN@)) ==> out@ == feed_markup@,
{
    let found = find_image_tags(feed_markup);
    rewrite_with(feed_markup, found)
}

} // verus!
