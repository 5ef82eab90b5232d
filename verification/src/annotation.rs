//! Annotating a text at its image tags.
//!
//! Each tag is kept as it is. Right after it, on a line of its own, comes a
//! paragraph that shows the tag's alt text. Nothing else of the text
//! changes.

use crate::image_tag::{
    alt_of, is_image_tag, lemma_image_tag_bounds, lemma_image_tag_on_boundaries, tag_of,
    RewriteMatch, LINE_BREAK,
};
use crate::search::{lemma_occurs_in_beginning, occurs_at, push_range};
use crate::text::{bytes_of, lemma_utf8_between_boundaries};
use vstd::prelude::*;
use vstd::utf8::*;

verus! {

/// What the inserted paragraph holds before the alt text.
pub const PARAGRAPH_OPEN: &'static str = "&lt;p&gt;alt-text: ";

/// What the inserted paragraph holds after the alt text.
pub const PARAGRAPH_CLOSE: &'static str = "&lt;/p&gt;";

/// The tag and the alt text that `m` locates lie inside the text.
pub open spec fn in_bounds(text: Seq<u8>, m: RewriteMatch) -> bool {
    &&& m.tag_start <= m.tag_end <= text.len()
    &&& m.alt_start <= m.alt_end <= text.len()
}

/// The matches lie inside the text and follow one another without overlap.
pub open spec fn in_order(text: Seq<u8>, matches: Seq<RewriteMatch>) -> bool {
    &&& forall|i: int| 0 <= i < matches.len() ==> in_bounds(text, #[trigger] matches[i])
    &&& forall|i: int, j: int|
        0 <= i < j < matches.len() ==> (#[trigger] matches[i]).tag_end <= (
        #[trigger] matches[j]).tag_start
}

/// Each match locates an image tag of `text`, and the tags follow one
/// another without overlap.
pub open spec fn well_formed(text: Seq<u8>, matches: Seq<RewriteMatch>) -> bool {
    &&& forall|i: int| 0 <= i < matches.len() ==> is_image_tag(text, #[trigger] matches[i])
    &&& forall|i: int, j: int|
        0 <= i < j < matches.len() ==> (#[trigger] matches[i]).tag_end <= (
        #[trigger] matches[j]).tag_start
}

/// The paragraph that shows an alt text.
pub open spec fn paragraph(alt: Seq<u8>) -> Seq<u8> {
    bytes_of(PARAGRAPH_OPEN@) + alt + bytes_of(PARAGRAPH_CLOSE@)
}

/// What stands in the output for one match: the tag as it was and the
/// paragraph with its alt text, each on a line of its own.
pub open spec fn annotation(text: Seq<u8>, m: RewriteMatch) -> Seq<u8> {
    bytes_of(LINE_BREAK@) + tag_of(text, m) + bytes_of(LINE_BREAK@) + paragraph(alt_of(text, m))
        + bytes_of(LINE_BREAK@)
}

/// Where the text goes on after the given matches: the end of the last tag.
pub open spec fn resume_at(matches: Seq<RewriteMatch>) -> int {
    if matches.len() == 0 {
        0
    } else {
        matches.last().tag_end as int
    }
}

/// The output up to the end of the last of the given matches.
pub open spec fn annotated_upto(text: Seq<u8>, matches: Seq<RewriteMatch>) -> Seq<u8>
    decreases matches.len(),
{
    if matches.len() == 0 {
        Seq::empty()
    } else {
        let before = matches.drop_last();
        let m = matches.last();
        annotated_upto(text, before) + text.subrange(resume_at(before), m.tag_start as int)
            + annotation(text, m)
    }
}

/// The text with the annotation of each match in the place of its tag.
pub open spec fn annotated(text: Seq<u8>, matches: Seq<RewriteMatch>) -> Seq<u8> {
    annotated_upto(text, matches) + text.subrange(resume_at(matches), text.len() as int)
}

/// Where, in the output, the annotation of the match at index `i` begins.
pub open spec fn annotation_offset(text: Seq<u8>, matches: Seq<RewriteMatch>, i: int) -> int {
    annotated_upto(text, matches.take(i)).len() + (matches[i].tag_start - resume_at(
        matches.take(i),
    ))
}

/// Image tags that follow one another lie inside the text, in order.
pub proof fn lemma_well_formed_in_order(text: Seq<u8>, matches: Seq<RewriteMatch>)
    requires
        well_formed(text, matches),
    ensures
        in_order(text, matches),
{
    assert forall|i: int| 0 <= i < matches.len() implies in_bounds(text, #[trigger] matches[i]) by {
        lemma_image_tag_bounds(text, matches[i]);
    }
}

/// The first of matches that are in order are in order; and image tags
/// they are, where all were.
pub proof fn lemma_in_order_take(text: Seq<u8>, matches: Seq<RewriteMatch>, k: int)
    requires
        in_order(text, matches),
        0 <= k <= matches.len(),
    ensures
        in_order(text, matches.take(k)),
        well_formed(text, matches) ==> well_formed(text, matches.take(k)),
{
    let first = matches.take(k);
    assert forall|i: int| 0 <= i < first.len() implies in_bounds(text, #[trigger] first[i]) by {
        assert(first[i] == matches[i]);
    }
    assert forall|i: int, j: int| 0 <= i < j < first.len() implies (#[trigger] first[i]).tag_end
        <= (#[trigger] first[j]).tag_start by {
        assert(first[i] == matches[i]);
        assert(first[j] == matches[j]);
    }
    if well_formed(text, matches) {
        assert forall|i: int| 0 <= i < first.len() implies is_image_tag(
            text,
            #[trigger] first[i],
        ) by {
            assert(first[i] == matches[i]);
        }
    }
}

/// The match at index `i` begins where the text resumes after the matches
/// before it, or later, and lies inside the text; the output grows by what
/// lies between and by the match's annotation.
pub proof fn lemma_match_bounds(text: Seq<u8>, matches: Seq<RewriteMatch>, i: int)
    requires
        in_order(text, matches),
        0 <= i < matches.len(),
    ensures
        0 <= resume_at(matches.take(i)) <= matches[i].tag_start,
        in_bounds(text, matches[i]),
        resume_at(matches.take(i + 1)) == matches[i].tag_end,
        annotated_upto(text, matches.take(i + 1)) == annotated_upto(text, matches.take(i))
            + text.subrange(resume_at(matches.take(i)), matches[i].tag_start as int) + annotation(
            text,
            matches[i],
        ),
{
    assert(matches.take(i + 1).drop_last() == matches.take(i));
    assert(matches.take(i + 1).last() == matches[i]);
    if i > 0 {
        assert(matches.take(i).last() == matches[i - 1]);
    }
}

/// Appends to `out` what stands in the output for the match `m`.
pub fn push_annotation(out: &mut Vec<u8>, text: &[u8], m: RewriteMatch)
    requires
        in_bounds(text@, m),
    ensures
        final(out)@ == old(out)@ + annotation(text@, m),
{
    let line_break = LINE_BREAK.as_bytes();
    let paragraph_open = PARAGRAPH_OPEN.as_bytes();
    let paragraph_close = PARAGRAPH_CLOSE.as_bytes();
    push_range(out, line_break, 0, line_break.len());
    push_range(out, text, m.tag_start, m.tag_end);
    push_range(out, line_break, 0, line_break.len());
    push_range(out, paragraph_open, 0, paragraph_open.len());
    push_range(out, text, m.alt_start, m.alt_end);
    push_range(out, paragraph_close, 0, paragraph_close.len());
    push_range(out, line_break, 0, line_break.len());
    proof {
        assert(line_break@.subrange(0, line_break@.len() as int) == line_break@);
        assert(paragraph_open@.subrange(0, paragraph_open@.len() as int) == paragraph_open@);
        assert(paragraph_close@.subrange(0, paragraph_close@.len() as int) == paragraph_close@);
        assert(final(out)@ == old(out)@ + line_break@ + tag_of(text@, m) + line_break@
            + paragraph_open@ + alt_of(text@, m) + paragraph_close@ + line_break@);
        assert(final(out)@ =~= old(out)@ + annotation(text@, m));
    }
}

/// Inserts, after each of the given tags, the paragraph with its alt text.
pub fn annotate(text: &[u8], matches: &[RewriteMatch]) -> (out: Vec<u8>)
    requires
        in_order(text@, matches@),
    ensures
        out@ == annotated(text@, matches@),
{
    let mut out: Vec<u8> = Vec::new();
    let mut resume: usize = 0;
    let mut i: usize = 0;
    while i < matches.len()
        invariant
            in_order(text@, matches@),
            i <= matches@.len(),
            resume == resume_at(matches@.take(i as int)),
            out@ == annotated_upto(text@, matches@.take(i as int)),
        decreases matches@.len() - i,
    {
        let m = matches[i];
        proof {
            lemma_match_bounds(text@, matches@, i as int);
        }
        push_range(&mut out, text, resume, m.tag_start);
        push_annotation(&mut out, text, m);
        resume = m.tag_end;
        i = i + 1;
    }
    proof {
        assert(matches@.take(i as int) == matches@);
        if matches@.len() > 0 {
            lemma_match_bounds(text@, matches@, matches@.len() - 1);
        }
    }
    push_range(&mut out, text, resume, text.len());
    out
}

/// The output for the first `k` matches is the beginning of the output for all.
pub proof fn lemma_annotated_upto_grows(text: Seq<u8>, matches: Seq<RewriteMatch>, k: int)
    requires
        in_order(text, matches),
        0 <= k <= matches.len(),
    ensures
        annotated_upto(text, matches.take(k)).len() <= annotated_upto(text, matches).len(),
        annotated_upto(text, matches).subrange(
            0,
            annotated_upto(text, matches.take(k)).len() as int,
        ) == annotated_upto(text, matches.take(k)),
    decreases matches.len(),
{
    if k == matches.len() {
        assert(matches.take(k) =~= matches);
    } else {
        let before = matches.drop_last();
        assert(matches.take(matches.len() - 1) =~= before);
        lemma_in_order_take(text, matches, matches.len() - 1);
        lemma_annotated_upto_grows(text, before, k);
        assert(before.take(k) =~= matches.take(k));
    }
}

/// Every tag is kept, and the alt text of that tag follows it: for each
/// match the output holds, from the match's place on, the tag as it stood
/// in the text, a line break, and the paragraph with the alt text of this
/// match and of no other.
pub proof fn lemma_tag_kept_and_followed_by_its_alt_text(
    text: Seq<u8>,
    matches: Seq<RewriteMatch>,
    i: int,
)
    requires
        in_order(text, matches),
        0 <= i < matches.len(),
    ensures
        occurs_at(
            annotated(text, matches),
            annotation(text, matches[i]),
            annotation_offset(text, matches, i),
        ),
        occurs_at(
            annotated(text, matches),
            tag_of(text, matches[i]) + bytes_of(LINE_BREAK@) + paragraph(alt_of(text, matches[i])),
            annotation_offset(text, matches, i) + bytes_of(LINE_BREAK@).len(),
        ),
{
    let m = matches[i];
    let out = annotated(text, matches);
    let before = annotated_upto(text, matches.take(i)) + text.subrange(
        resume_at(matches.take(i)),
        m.tag_start as int,
    );
    let upto = annotated_upto(text, matches.take(i + 1));
    let kept = tag_of(text, m) + bytes_of(LINE_BREAK@) + paragraph(alt_of(text, m));
    lemma_match_bounds(text, matches, i);
    lemma_annotated_upto_grows(text, matches, i + 1);
    assert(annotation(text, m) =~= bytes_of(LINE_BREAK@) + kept + bytes_of(LINE_BREAK@));
    assert(upto == before + (bytes_of(LINE_BREAK@) + kept + bytes_of(LINE_BREAK@)));
    assert(out.subrange(0, upto.len() as int) =~= annotated_upto(text, matches).subrange(
        0,
        upto.len() as int,
    ));
    lemma_occurs_in_beginning(out, before, bytes_of(LINE_BREAK@), kept, bytes_of(LINE_BREAK@));
}

/// The annotations stand in the output in the order of their matches:
/// that of an earlier match ends before that of a later one begins.
pub proof fn lemma_annotations_keep_order(
    text: Seq<u8>,
    matches: Seq<RewriteMatch>,
    i: int,
    j: int,
)
    requires
        in_order(text, matches),
        0 <= i < j < matches.len(),
    ensures
        annotation_offset(text, matches, i) + annotation(text, matches[i]).len()
            <= annotation_offset(text, matches, j),
{
    lemma_match_bounds(text, matches, i);
    lemma_match_bounds(text, matches, j);
    lemma_in_order_take(text, matches, j);
    lemma_annotated_upto_grows(text, matches.take(j), i + 1);
    assert(matches.take(j).take(i + 1) =~= matches.take(i + 1));
}

/// An empty alt text still gets its paragraph: the one with nothing
/// between its opening and its closing part.
pub proof fn lemma_empty_alt_paragraph(text: Seq<u8>, m: RewriteMatch)
    requires
        in_bounds(text, m),
        m.alt_start == m.alt_end,
    ensures
        annotation(text, m) == bytes_of(LINE_BREAK@) + tag_of(text, m) + bytes_of(LINE_BREAK@) + (
        bytes_of(PARAGRAPH_OPEN@) + bytes_of(PARAGRAPH_CLOSE@)) + bytes_of(LINE_BREAK@),
{
    assert(alt_of(text, m) =~= Seq::<u8>::empty());
    assert(paragraph(Seq::<u8>::empty()) =~= bytes_of(PARAGRAPH_OPEN@) + bytes_of(
        PARAGRAPH_CLOSE@,
    ));
}

/// What is put in the output for an image tag of a UTF-8 text is UTF-8.
pub proof fn lemma_annotation_is_utf8(text: Seq<u8>, m: RewriteMatch)
    requires
        valid_utf8(text),
        is_image_tag(text, m),
    ensures
        valid_utf8(annotation(text, m)),
{
    lemma_image_tag_bounds(text, m);
    lemma_image_tag_on_boundaries(text, m);
    let line_break = bytes_of(LINE_BREAK@);
    let tag = tag_of(text, m);
    let alt = alt_of(text, m);
    encode_utf8_valid_utf8(LINE_BREAK@);
    encode_utf8_valid_utf8(PARAGRAPH_OPEN@);
    encode_utf8_valid_utf8(PARAGRAPH_CLOSE@);
    lemma_utf8_between_boundaries(text, m.tag_start as int, m.tag_end as int);
    lemma_utf8_between_boundaries(text, m.alt_start as int, m.alt_end as int);
    valid_utf8_concat(line_break, tag);
    valid_utf8_concat(line_break + tag, line_break);
    valid_utf8_concat(bytes_of(PARAGRAPH_OPEN@), alt);
    valid_utf8_concat(bytes_of(PARAGRAPH_OPEN@) + alt, bytes_of(PARAGRAPH_CLOSE@));
    valid_utf8_concat(line_break + tag + line_break, paragraph(alt));
    valid_utf8_concat(line_break + tag + line_break + paragraph(alt), line_break);
}

/// The output for well-formed matches in a UTF-8 text is UTF-8 as far as
/// it goes, and the text resumes on a character boundary.
pub proof fn lemma_annotated_upto_is_utf8(text: Seq<u8>, matches: Seq<RewriteMatch>)
    requires
        valid_utf8(text),
        well_formed(text, matches),
    ensures
        valid_utf8(annotated_upto(text, matches)),
        is_char_boundary(text, resume_at(matches)),
        0 <= resume_at(matches) <= text.len(),
    decreases matches.len(),
{
    if matches.len() > 0 {
        let before = matches.drop_last();
        let m = matches.last();
        assert(matches.take(matches.len() - 1) =~= before);
        lemma_well_formed_in_order(text, matches);
        lemma_in_order_take(text, matches, matches.len() - 1);
        lemma_annotated_upto_is_utf8(text, before);
        lemma_match_bounds(text, matches, matches.len() - 1);
        lemma_image_tag_on_boundaries(text, m);
        lemma_annotation_is_utf8(text, m);
        let gap = text.subrange(resume_at(before), m.tag_start as int);
        lemma_utf8_between_boundaries(text, resume_at(before), m.tag_start as int);
        valid_utf8_concat(annotated_upto(text, before), gap);
        valid_utf8_concat(annotated_upto(text, before) + gap, annotation(text, m));
    }
}

/// Annotating a UTF-8 text at well-formed matches gives UTF-8.
pub proof fn lemma_annotated_is_utf8(text: Seq<u8>, matches: Seq<RewriteMatch>)
    requires
        valid_utf8(text),
        well_formed(text, matches),
    ensures
        valid_utf8(annotated(text, matches)),
{
    lemma_annotated_upto_is_utf8(text, matches);
    is_char_boundary_start_end_of_seq(text);
    lemma_utf8_between_boundaries(text, resume_at(matches), text.len() as int);
    valid_utf8_concat(
        annotated_upto(text, matches),
        text.subrange(resume_at(matches), text.len() as int),
    );
}

} // verus!
