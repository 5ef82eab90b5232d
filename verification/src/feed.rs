//! The feed assembler: from what the upstream feed sent to what is sent on.
//!
//! The upstream request itself is made elsewhere. This module says what is
//! asked of upstream, and, from what came back or went wrong, what the
//! client gets: the feed with its title marked and its image tags
//! annotated, under the content type that upstream declared, or a status.

use crate::engine::{captures_of, ALT_GROUP, IMAGE_PATTERN};
use crate::headers::{
    check_header_value, content_type_of, declared_content_type, first_value, header_values,
    is_header_value, requested_content_type, ACCEPT, CONTENT_TYPE, DEFAULT_CONTENT_TYPE,
};
use crate::image_tag::ALT_OPEN;
use crate::rewriter::{rewrite, rewritten};
use crate::search::{
    first_at, lemma_occurs_in_joined, lemma_only_first_replaced, occurs, occurs_at, replace_first,
    replaced_first,
};
use crate::text::{bytes_of, lemma_replaced_first_is_utf8, text_of_utf8};
use http::{HeaderMap, HeaderValue};
use vstd::prelude::*;
use vstd::utf8::*;

verus! {

/// Where the upstream feed is fetched from.
pub const UPSTREAM_URL: &'static str = "https://xkcd.com/rss.xml";

/// The title by which the upstream feed names itself.
pub const UPSTREAM_TITLE: &'static str = "<title>xkcd.com</title>";

/// The title under which the feed is sent on.
pub const RELAY_TITLE: &'static str = "<title>xkcdwat (xkcd with alt-text)</title>";

/// What is asked of upstream for one inbound request.
#[derive(Debug)]
pub struct FeedRequest {
    /// The content type to ask for.
    pub requested_content_type: String,
}

/// What upstream sent.
#[derive(Debug)]
pub struct UpstreamResult {
    /// The feed, as text.
    pub body: String,
    /// The content type that upstream declared, or the default.
    pub content_type: String,
}

/// What the client is sent.
#[derive(Debug)]
pub struct FeedResponse {
    /// The content type: the one of upstream.
    pub content_type: String,
    /// The rewritten feed.
    pub body: String,
}

/// What can go wrong in fetching the upstream feed.
#[derive(Clone, Copy, Debug, PartialEq, Eq, Structural)]
pub enum FetchError {
    /// The request to upstream could not be built.
    RequestConstruction,
    /// Upstream could not be reached, or did not answer.
    UpstreamTransport,
    /// Upstream answered, but its body could not be read as text.
    UpstreamBodyRead,
}

/// Why the client gets no feed.
#[derive(Clone, Copy, Debug, PartialEq, Eq, Structural)]
pub enum HttpError {
    /// The request to upstream could not be built.
    RequestConstruction,
    /// Upstream could not be reached, or did not answer.
    UpstreamTransport,
    /// Upstream answered, but its body could not be read as text.
    UpstreamBodyRead,
    /// The response to the client could not be built: the content type
    /// cannot be sent as a header value.
    ResponseBuild,
}

/// The status for a failure: 500 where this side failed, 502 where
/// upstream did.
pub open spec fn status_of(error: HttpError) -> u16 {
    match error {
        HttpError::RequestConstruction => 500,
        HttpError::UpstreamTransport => 502,
        HttpError::UpstreamBodyRead => 502,
        HttpError::ResponseBuild => 500,
    }
}

/// The failure that the client is told of for a failure of the fetch.
pub open spec fn surfaced(error: FetchError) -> HttpError {
    match error {
        FetchError::RequestConstruction => HttpError::RequestConstruction,
        FetchError::UpstreamTransport => HttpError::UpstreamTransport,
        FetchError::UpstreamBodyRead => HttpError::UpstreamBodyRead,
    }
}

impl HttpError {
    /// The failure that the client is told of for a failure of the fetch.
    pub fn from_fetch(error: FetchError) -> (surfaced_as: HttpError)
        ensures
            surfaced_as == surfaced(error),
    {
        match error {
            FetchError::RequestConstruction => HttpError::RequestConstruction,
            FetchError::UpstreamTransport => HttpError::UpstreamTransport,
            FetchError::UpstreamBodyRead => HttpError::UpstreamBodyRead,
        }
    }

    /// The status code that the client is sent.
    pub fn status(&self) -> (code: u16)
        ensures
            code == status_of(*self),
            code == 500 || code == 502,
    {
        match self {
            HttpError::RequestConstruction => 500,
            HttpError::UpstreamTransport => 502,
            HttpError::UpstreamBodyRead => 502,
            HttpError::ResponseBuild => 500,
        }
    }
}

impl FeedRequest {
    /// What to ask of upstream, given the headers of the inbound request:
    /// the content type of its `accept` header, or the default.
    pub fn from_headers(headers: &HeaderMap<HeaderValue>) -> (request: FeedRequest)
        ensures
            request.requested_content_type@ == content_type_of(
                first_value(header_values(*headers), ACCEPT@),
            ),
            first_value(header_values(*headers), ACCEPT@) is None
                ==> request.requested_content_type@ == DEFAULT_CONTENT_TYPE@,
            is_header_value(request.requested_content_type@),
    {
        FeedRequest { requested_content_type: requested_content_type(headers) }
    }
}

impl UpstreamResult {
    /// What upstream sent, given the headers of its response and its body.
    pub fn from_response(headers: &HeaderMap<HeaderValue>, body: String) -> (result: UpstreamResult)
        ensures
            result.body@ == body@,
            result.content_type@ == content_type_of(
                first_value(header_values(*headers), CONTENT_TYPE@),
            ),
            is_header_value(result.content_type@),
    {
        UpstreamResult { body, content_type: declared_content_type(headers) }
    }
}

/// The feed with the first of upstream's titles replaced by the relay's.
pub open spec fn titled(body: Seq<char>) -> Seq<char> {
    decode_utf8(replaced_first(bytes_of(body), bytes_of(UPSTREAM_TITLE@), bytes_of(RELAY_TITLE@)))
}

/// Replaces upstream's title by the relay's: the first one, and no other.
pub fn substitute_title(body: &str) -> (out: String)
    ensures
        bytes_of(out@) == replaced_first(
            bytes_of(body@),
            bytes_of(UPSTREAM_TITLE@),
            bytes_of(RELAY_TITLE@),
        ),
        out@ == titled(body@),
{
    let bytes = replace_first(body.as_bytes(), UPSTREAM_TITLE.as_bytes(), RELAY_TITLE.as_bytes());
    proof {
        encode_utf8_valid_utf8(body@);
        encode_utf8_valid_utf8(UPSTREAM_TITLE@);
        encode_utf8_valid_utf8(RELAY_TITLE@);
        lemma_replaced_first_is_utf8(
            bytes_of(body@),
            bytes_of(UPSTREAM_TITLE@),
            bytes_of(RELAY_TITLE@),
        );
    }
    text_of_utf8(bytes)
}

/// The bytes of the body that is sent on for an upstream body: its title
/// replaced, and then rewritten by what the expression engine finds.
pub open spec fn relayed(body: Seq<char>) -> Seq<u8> {
    rewritten(bytes_of(titled(body)), captures_of(IMAGE_PATTERN@, ALT_GROUP@, titled(body)))
}

/// What the client gets, from how the fetch ended.
///
/// A failed fetch is surfaced as it is. Of a fetched feed the title is
/// replaced and the image tags are annotated; the content type is the one
/// that upstream declared, and where it cannot be sent as a header value
/// the response cannot be built.
pub fn build_feed_response(upstream: Result<UpstreamResult, FetchError>) -> (reply: Result<
    FeedResponse,
    HttpError,
>)
    ensures
        match upstream {
            Err(error) => reply == Err::<FeedResponse, HttpError>(surfaced(error)),
            Ok(sent) => if is_header_value(sent.content_type@) {
                &&& reply is Ok
                &&& reply->Ok_0.content_type@ == sent.content_type@
                &&& bytes_of(reply->Ok_0.body@) == relayed(sent.body@)
                &&& reply->Ok_0.body@ == decode_utf8(relayed(sent.body@))
                &&& !occurs(bytes_of(titled(sent.body@)), bytes_of(ALT_OPEN@))
                    ==> reply->Ok_0.body@ == titled(sent.body@)
            } else {
                reply == Err::<FeedResponse, HttpError>(HttpError::ResponseBuild)
            },
        },
{
    match upstream {
        Err(error) => Err(HttpError::from_fetch(error)),
        Ok(sent) => {
            if !check_header_value(sent.content_type.as_str()) {
                return Err(HttpError::ResponseBuild);
            }
            let with_title = substitute_title(sent.body.as_str());
            let body = rewrite(with_title.as_str());
            Ok(FeedResponse { content_type: sent.content_type, body })
        },
    }
}

/// Of two titles in a feed only the first is replaced: where upstream's
/// title occurs first at `first` and again at `later`, the feed that is
/// sent on holds the relay's title at `first`, and upstream's title still,
/// moved by the difference of the two lengths.
pub proof fn lemma_second_title_stays(body: Seq<u8>, first: int, later: int)
    requires
        first_at(body, bytes_of(UPSTREAM_TITLE@), 0, first),
        occurs_at(body, bytes_of(UPSTREAM_TITLE@), later),
        first + bytes_of(UPSTREAM_TITLE@).len() <= later,
    ensures
        occurs_at(
            replaced_first(body, bytes_of(UPSTREAM_TITLE@), bytes_of(RELAY_TITLE@)),
            bytes_of(RELAY_TITLE@),
            first,
        ),
        occurs_at(
            replaced_first(body, bytes_of(UPSTREAM_TITLE@), bytes_of(RELAY_TITLE@)),
            bytes_of(UPSTREAM_TITLE@),
            later - bytes_of(UPSTREAM_TITLE@).len() + bytes_of(RELAY_TITLE@).len(),
        ),
{
    lemma_only_first_replaced(
        body,
        bytes_of(UPSTREAM_TITLE@),
        bytes_of(RELAY_TITLE@),
        first,
        later,
    );
    lemma_occurs_in_joined(
        body.subrange(0, first),
        bytes_of(RELAY_TITLE@),
        body.subrange(first + bytes_of(UPSTREAM_TITLE@).len(), body.len() as int),
    );
}

} // verus!
