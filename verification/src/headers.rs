//! Reading a content type out of HTTP headers.
//!
//! The headers of a request or of a response are held in the `HeaderMap`
//! of the `http` crate. The map is opaque here: what it holds is given a
//! name, and the one lookup that is made is stated over that name.

use crate::text::{ascii_text, is_ascii_bytes, lemma_ascii_bytes_are_utf8, text_of_utf8};
use http::{HeaderMap, HeaderValue};
use vstd::prelude::*;
use vstd::utf8::*;

verus! {

/// The header map of the `http` crate.
#[verifier::external_type_specification]
#[verifier::external_body]
#[verifier::reject_recursive_types(T)]
pub struct ExHeaderMap<T>(HeaderMap<T>);

/// The header value of the `http` crate.
#[verifier::external_type_specification]
#[verifier::external_body]
pub struct ExHeaderValue(HeaderValue);

/// What a header map holds: for each header name, as the map stores it (in
/// lower case), the bytes of the values under that name, in the order in
/// which `HeaderMap::get_all` gives them.
pub uninterp spec fn header_values(headers: HeaderMap<HeaderValue>) -> Map<Seq<char>, Seq<Seq<u8>>>;

/// The content type that is taken where a header gives none.
pub const DEFAULT_CONTENT_TYPE: &'static str = "application/rss+xml";

/// The name of the header by which a client says what it accepts.
pub const ACCEPT: &'static str = "accept";

/// The name of the header by which a sender declares what it sends.
pub const CONTENT_TYPE: &'static str = "content-type";

/// A header name of lower-case letters, digits and hyphens, of at most 64
/// characters: such a name is stored as it is written.
pub open spec fn is_plain_name(name: Seq<char>) -> bool {
    &&& 1 <= name.len() <= 64
    &&& forall|i: int|
        0 <= i < name.len() ==> {
            let c = #[trigger] name[i];
            ('a' <= c && c <= 'z') || ('0' <= c && c <= '9') || c == '-'
        }
}

/// The first value under `name`, if there is one.
pub open spec fn first_value(values: Map<Seq<char>, Seq<Seq<u8>>>, name: Seq<char>) -> Option<
    Seq<u8>,
> {
    if values.contains_key(name) && values[name].len() > 0 {
        Some(values[name][0])
    } else {
        None
    }
}

/// The bytes that were looked up, as a sequence.
pub open spec fn looked_up(value: Option<Vec<u8>>) -> Option<Seq<u8>> {
    match value {
        Some(bytes) => Some(bytes@),
        None => None,
    }
}

/// `HeaderMap::get` of the `http` crate with a `&str` key, and
/// `HeaderValue::as_bytes` of what it gives: the bytes of the first value
/// under `name`, and nothing where the map holds no value under it.
#[verifier::external_body]
fn get_first(headers: &HeaderMap<HeaderValue>, name: &str) -> (value: Option<Vec<u8>>)
    requires
        is_plain_name(name@),
    ensures
        looked_up(value) == first_value(header_values(*headers), name@),
{
    headers.get(name).map(|v| v.as_bytes().to_vec())
}

/// A byte that can stand in a header value read as text: a visible ASCII
/// character, a space or a tab.
pub open spec fn is_visible(byte: u8) -> bool {
    (32 <= byte && byte < 127) || byte == 9
}

/// Every byte can stand in a header value read as text.
pub open spec fn all_visible(bytes: Seq<u8>) -> bool {
    forall|i: int| 0 <= i < bytes.len() ==> is_visible(#[trigger] bytes[i])
}

/// A byte that can stand in a header value at all: anything but a control
/// character other than the tab.
pub open spec fn is_value_byte(byte: u8) -> bool {
    (32 <= byte && byte != 127) || byte == 9
}

/// The text can be sent as a header value.
pub open spec fn is_header_value(text: Seq<char>) -> bool {
    forall|i: int|
        0 <= i < encode_utf8(text).len() ==> is_value_byte(#[trigger] encode_utf8(text)[i])
}

/// The content type that a header value gives: its text where all of it
/// is visible, the default where it is not, or where there is no value.
pub open spec fn content_type_of(value: Option<Seq<u8>>) -> Seq<char> {
    match value {
        Some(bytes) => if all_visible(bytes) {
            ascii_text(bytes)
        } else {
            DEFAULT_CONTENT_TYPE@
        },
        None => DEFAULT_CONTENT_TYPE@,
    }
}

/// A content type that was read out of a header can be sent as a header
/// value: asking upstream for it, or declaring it to the client, cannot
/// fail on its account.
pub proof fn lemma_content_type_can_be_sent(value: Option<Seq<u8>>)
    ensures
        is_header_value(content_type_of(value)),
{
    let text = content_type_of(value);
    if value is Some && all_visible(value->Some_0) {
        let bytes = value->Some_0;
        assert(is_ascii_bytes(bytes)) by {
            assert forall|i: int| 0 <= i < bytes.len() implies #[trigger] bytes[i] < 128 by {
                assert(is_visible(bytes[i]));
            }
        }
        lemma_ascii_bytes_are_utf8(bytes);
        assert forall|i: int| 0 <= i < encode_utf8(text).len() implies is_value_byte(
            #[trigger] encode_utf8(text)[i],
        ) by {
            assert(is_visible(bytes[i]));
        }
    } else {
        reveal_strlit("application/rss+xml");
        is_ascii_chars_encode_utf8(text);
        assert forall|i: int| 0 <= i < encode_utf8(text).len() implies is_value_byte(
            #[trigger] encode_utf8(text)[i],
        ) by {
            assert(text[i] as u8 == encode_utf8(text)[i]);
        }
    }
}

/// Tells whether every byte can stand in a header value read as text.
pub fn check_visible(bytes: &[u8]) -> (holds: bool)
    ensures
        holds == all_visible(bytes@),
{
    let mut i: usize = 0;
    while i < bytes.len()
        invariant
            i <= bytes@.len(),
            forall|j: int| 0 <= j < i ==> is_visible(#[trigger] bytes@[j]),
        decreases bytes@.len() - i,
    {
        let byte: u8 = bytes[i];
        if !((32 <= byte && byte < 127) || byte == 9) {
            return false;
        }
        i = i + 1;
    }
    true
}

/// Tells whether the text can be sent as a header value.
pub fn check_header_value(text: &str) -> (holds: bool)
    ensures
        holds == is_header_value(text@),
{
    let bytes = text.as_bytes();
    let mut i: usize = 0;
    while i < bytes.len()
        invariant
            i <= bytes@.len(),
            bytes@ == encode_utf8(text@),
            forall|j: int| 0 <= j < i ==> is_value_byte(#[trigger] bytes@[j]),
        decreases bytes@.len() - i,
    {
        let byte: u8 = bytes[i];
        if !((32 <= byte && byte != 127) || byte == 9) {
            return false;
        }
        i = i + 1;
    }
    true
}

/// The content type that a header value gives, the default included.
pub fn content_type_from(value: Option<Vec<u8>>) -> (content_type: String)
    ensures
        content_type@ == content_type_of(looked_up(value)),
        is_header_value(content_type@),
{
    proof {
        lemma_content_type_can_be_sent(looked_up(value));
    }
    match value {
        Some(bytes) => {
            if check_visible(bytes.as_slice()) {
                proof {
                    assert(is_ascii_bytes(bytes@)) by {
                        assert forall|i: int| 0 <= i < bytes@.len() implies #[trigger] bytes@[i]
                            < 128 by {
                            assert(is_visible(bytes@[i]));
                        }
                    }
                    lemma_ascii_bytes_are_utf8(bytes@);
                    encode_utf8_decode_utf8(ascii_text(bytes@));
                }
                text_of_utf8(bytes)
            } else {
                DEFAULT_CONTENT_TYPE.to_owned()
            }
        },
        None => DEFAULT_CONTENT_TYPE.to_owned(),
    }
}

/// The content type that a client asks for: the text of the first
/// `accept` header, and the default where there is none or it is no text.
pub fn requested_content_type(headers: &HeaderMap<HeaderValue>) -> (content_type: String)
    ensures
        content_type@ == content_type_of(first_value(header_values(*headers), ACCEPT@)),
        is_header_value(content_type@),
{
    proof {
        reveal_strlit("accept");
    }
    content_type_from(get_first(headers, ACCEPT))
}

/// The content type that a response declares: the text of its first
/// `content-type` header, and the default where there is none or it is no
/// text.
pub fn declared_content_type(headers: &HeaderMap<HeaderValue>) -> (content_type: String)
    ensures
        content_type@ == content_type_of(first_value(header_values(*headers), CONTENT_TYPE@)),
        is_header_value(content_type@),
{
    proof {
        reveal_strlit("content-type");
    }
    content_type_from(get_first(headers, CONTENT_TYPE))
}

} // verus!
