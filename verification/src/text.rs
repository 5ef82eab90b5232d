//! Texts and their bytes.
//!
//! A `String` is known to Verus by its characters; the searching and
//! rewriting in this crate works on bytes. The two meet in the UTF-8
//! encoding: the facts here say where a byte string may be cut so that
//! each piece is still UTF-8, and the functions turn bytes back into a
//! `String`.

use crate::search::{first_occurrence, lemma_first_occurrence_first, occurs_at, replaced_first};
use vstd::pervasive::unreached;
use vstd::prelude::*;
use vstd::utf8::*;

verus! {

/// The bytes of a text: its UTF-8 encoding.
pub open spec fn bytes_of(text: Seq<char>) -> Seq<u8> {
    encode_utf8(text)
}

/// The text whose characters are the given bytes, one for one.
/// Meant for bytes below 128.
pub open spec fn ascii_text(bytes: Seq<u8>) -> Seq<char> {
    Seq::new(bytes.len(), |i: int| bytes[i] as char)
}

/// Every byte is below 128.
pub open spec fn is_ascii_bytes(bytes: Seq<u8>) -> bool {
    forall|i: int| 0 <= i < bytes.len() ==> #[trigger] bytes[i] < 128
}

/// Bytes below 128 are the UTF-8 encoding of the text that holds them as characters.
pub proof fn lemma_ascii_bytes_are_utf8(bytes: Seq<u8>)
    requires
        is_ascii_bytes(bytes),
    ensures
        valid_utf8(bytes),
        encode_utf8(ascii_text(bytes)) == bytes,
{
    let chars = ascii_text(bytes);
    assert(is_ascii_chars(chars)) by {
        assert forall|i: int| 0 <= i < chars.len() implies '\0' <= #[trigger] chars[i]
            <= '\u{7f}' by {
            assert(bytes[i] < 128);
        }
    }
    is_ascii_chars_encode_utf8(chars);
    assert(encode_utf8(chars) =~= bytes) by {
        assert forall|i: int| 0 <= i < bytes.len() implies encode_utf8(chars)[i] == bytes[i] by {
            assert(chars[i] as u8 == encode_utf8(chars)[i]);
            assert(bytes[i] < 128);
        }
    }
    encode_utf8_valid_utf8(chars);
}

/// What follows a UTF-8 prefix of a UTF-8 byte string is UTF-8 too.
pub proof fn lemma_utf8_after_prefix(head: Seq<u8>, tail: Seq<u8>)
    requires
        valid_utf8(head + tail),
        valid_utf8(head),
    ensures
        valid_utf8(tail),
    decreases head.len(),
{
    if head.len() == 0 {
        assert(head + tail =~= tail);
    } else {
        let rest = pop_first_scalar(head);
        assert(rest.len() < head.len());
        assert(pop_first_scalar(head + tail) =~= rest + tail);
        lemma_utf8_after_prefix(rest, tail);
    }
}

/// A UTF-8 byte string that occurs in another begins on a character boundary of it.
pub proof fn lemma_occurrence_starts_on_boundary(hay: Seq<u8>, needle: Seq<u8>, at: int)
    requires
        valid_utf8(hay),
        valid_utf8(needle),
        needle.len() > 0,
        occurs_at(hay, needle, at),
    ensures
        is_char_boundary(hay, at),
{
    assert(is_char_boundary(needle, 0));
    is_char_boundary_iff_not_is_continuation_byte(needle, 0);
    assert(hay.subrange(at, at + needle.len())[0] == hay[at]);
    is_char_boundary_iff_not_is_continuation_byte(hay, at);
}

/// A UTF-8 byte string that occurs in another ends on a character boundary of it.
pub proof fn lemma_occurrence_ends_on_boundary(hay: Seq<u8>, needle: Seq<u8>, at: int)
    requires
        valid_utf8(hay),
        valid_utf8(needle),
        needle.len() > 0,
        occurs_at(hay, needle, at),
    ensures
        is_char_boundary(hay, at + needle.len()),
{
    let end = at + needle.len();
    lemma_occurrence_starts_on_boundary(hay, needle, at);
    valid_utf8_split(hay, at);
    let rest = hay.subrange(end, hay.len() as int);
    assert(hay.subrange(at, hay.len() as int) =~= needle + rest);
    lemma_utf8_after_prefix(needle, rest);
    if end == hay.len() {
        is_char_boundary_start_end_of_seq(hay);
    } else {
        assert(is_char_boundary(rest, 0));
        is_char_boundary_iff_not_is_continuation_byte(rest, 0);
        assert(rest[0] == hay[end]);
        is_char_boundary_iff_not_is_continuation_byte(hay, end);
    }
}

/// The bytes between two character boundaries of a UTF-8 byte string are UTF-8.
pub proof fn lemma_utf8_between_boundaries(hay: Seq<u8>, from: int, to: int)
    requires
        valid_utf8(hay),
        0 <= from <= to <= hay.len(),
        is_char_boundary(hay, from),
        is_char_boundary(hay, to),
    ensures
        valid_utf8(hay.subrange(from, to)),
{
    valid_utf8_split(hay, to);
    let head = hay.subrange(0, to);
    if from == to {
        assert(hay.subrange(from, to).len() == 0);
    } else {
        is_char_boundary_iff_not_is_continuation_byte(hay, from);
        assert(head[from] == hay[from]);
        is_char_boundary_iff_not_is_continuation_byte(head, from);
        valid_utf8_split(head, from);
        assert(head.subrange(from, head.len() as int) =~= hay.subrange(from, to));
    }
}

/// Replacing the first occurrence of one UTF-8 byte string in another by
/// a third gives UTF-8.
pub proof fn lemma_replaced_first_is_utf8(hay: Seq<u8>, needle: Seq<u8>, with: Seq<u8>)
    requires
        valid_utf8(hay),
        valid_utf8(needle),
        valid_utf8(with),
    ensures
        valid_utf8(replaced_first(hay, needle, with)),
{
    lemma_first_occurrence_first(hay, needle);
    if let Some(at) = first_occurrence(hay, needle) {
        let end = at + needle.len();
        if needle.len() > 0 {
            lemma_occurrence_starts_on_boundary(hay, needle, at);
            lemma_occurrence_ends_on_boundary(hay, needle, at);
        } else if at > 0 {
            assert(occurs_at(hay, needle, 0)) by {
                assert(hay.subrange(0, 0) =~= needle);
            }
        }
        is_char_boundary_start_end_of_seq(hay);
        lemma_utf8_between_boundaries(hay, 0, at);
        lemma_utf8_between_boundaries(hay, end, hay.len() as int);
        valid_utf8_concat(hay.subrange(0, at), with);
        valid_utf8_concat(hay.subrange(0, at) + with, hay.subrange(end, hay.len() as int));
    }
}

/// `String::from_utf8` of std: the text that `bytes` encode, and nothing
/// where they are not UTF-8. UTF-8 is what `vstd::utf8` defines.
#[verifier::external_body]
fn string_from_utf8(bytes: Vec<u8>) -> (text: Option<String>)
    ensures
        text is Some <==> valid_utf8(bytes@),
        text matches Some(s) ==> encode_utf8(s@) == bytes@,
{
    String::from_utf8(bytes).ok()
}

/// The text that the given UTF-8 bytes encode.
pub fn text_of_utf8(bytes: Vec<u8>) -> (text: String)
    requires
        valid_utf8(bytes@),
    ensures
        bytes_of(text@) == bytes@,
        text@ == decode_utf8(bytes@),
{
    match string_from_utf8(bytes) {
        Some(text) => {
            proof {
                encode_utf8_decode_utf8(text@);
            }
            text
        },
        None => unreached(),
    }
}

} // verus!
