use http::header::{HeaderValue, ACCEPT, CONTENT_TYPE};
use http::HeaderMap;
use xkcdwat::feed::{
    build_feed_response, substitute_title, FeedRequest, FetchError, HttpError, UpstreamResult,
    RELAY_TITLE, UPSTREAM_TITLE, UPSTREAM_URL,
};

fn sent(content_type: &str, body: &str) -> UpstreamResult {
    UpstreamResult { body: body.to_string(), content_type: content_type.to_string() }
}

#[test]
fn upstream_is_the_comic_feed() {
    assert_eq!(UPSTREAM_URL, "https://xkcd.com/rss.xml");
    assert_eq!(UPSTREAM_TITLE, "<title>xkcd.com</title>");
    assert_eq!(RELAY_TITLE, "<title>xkcdwat (xkcd with alt-text)</title>");
}

#[test]
fn only_the_first_title_is_replaced() {
    let body = "<rss><title>xkcd.com</title><item><title>xkcd.com</title></item></rss>";
    assert_eq!(
        substitute_title(body),
        "<rss><title>xkcdwat (xkcd with alt-text)</title><item><title>xkcd.com</title></item></rss>"
    );
    assert_eq!(substitute_title(body), body.replacen(UPSTREAM_TITLE, RELAY_TITLE, 1));
}

#[test]
fn a_feed_without_the_title_keeps_its_text() {
    let body = "<rss><title>other — ✓</title></rss>";
    assert_eq!(substitute_title(body), body);
    assert_eq!(substitute_title(""), "");
}

#[test]
fn a_title_between_other_characters_is_replaced() {
    let body = "é<title>xkcd.com</title>日本";
    assert_eq!(substitute_title(body), "é<title>xkcdwat (xkcd with alt-text)</title>日本");
}

#[test]
fn default_content_negotiation() {
    let request = FeedRequest::from_headers(&HeaderMap::new());
    assert_eq!(request.requested_content_type, "application/rss+xml");

    let mut declared = HeaderMap::new();
    declared.insert(CONTENT_TYPE, HeaderValue::from_static("application/atom+xml"));
    let upstream = UpstreamResult::from_response(&declared, "<feed/>".to_string());
    assert_eq!(upstream.content_type, "application/atom+xml");
    assert_eq!(upstream.body, "<feed/>");
    let reply = build_feed_response(Ok(upstream)).unwrap();
    assert_eq!(reply.content_type, "application/atom+xml");
}

#[test]
fn the_requested_type_does_not_reach_the_reply() {
    let mut asked = HeaderMap::new();
    asked.insert(ACCEPT, HeaderValue::from_static("text/html"));
    let request = FeedRequest::from_headers(&asked);
    assert_eq!(request.requested_content_type, "text/html");

    let upstream = UpstreamResult::from_response(&HeaderMap::new(), String::new());
    assert_eq!(upstream.content_type, "application/rss+xml");
    let reply = build_feed_response(Ok(upstream)).unwrap();
    assert_eq!(reply.content_type, "application/rss+xml");
    assert_eq!(reply.body, "");
}

#[test]
fn end_to_end_feed_is_titled_and_annotated() {
    let body = "<rss><title>xkcd.com</title><item><description>&lt;img src=\"x.png\" alt=\"A stick figure\"&gt;&lt;/description></item></rss>";
    let reply = build_feed_response(Ok(sent("application/rss+xml", body))).unwrap();
    assert_eq!(reply.content_type, "application/rss+xml");
    assert!(reply.body.contains("<title>xkcdwat (xkcd with alt-text)</title>"));
    assert!(reply.body.contains(
        "&lt;img src=\"x.png\" alt=\"A stick figure\"&gt;\n&lt;p&gt;alt-text: A stick figure&lt;/p&gt;"
    ));
    assert_eq!(
        reply.body,
        "<rss><title>xkcdwat (xkcd with alt-text)</title><item><description>\n&lt;img src=\"x.png\" alt=\"A stick figure\"&gt;\n&lt;p&gt;alt-text: A stick figure&lt;/p&gt;\n&lt;/description></item></rss>"
    );
}

#[test]
fn upstream_failure_gives_bad_gateway() {
    let reply = build_feed_response(Err(FetchError::UpstreamTransport));
    let error = reply.unwrap_err();
    assert_eq!(error, HttpError::UpstreamTransport);
    assert_eq!(error.status(), 502);
}

#[test]
fn every_failure_has_its_status() {
    assert_eq!(HttpError::from_fetch(FetchError::RequestConstruction), HttpError::RequestConstruction);
    assert_eq!(HttpError::from_fetch(FetchError::UpstreamTransport), HttpError::UpstreamTransport);
    assert_eq!(HttpError::from_fetch(FetchError::UpstreamBodyRead), HttpError::UpstreamBodyRead);
    assert_eq!(HttpError::RequestConstruction.status(), 500);
    assert_eq!(HttpError::UpstreamTransport.status(), 502);
    assert_eq!(HttpError::UpstreamBodyRead.status(), 502);
    assert_eq!(HttpError::ResponseBuild.status(), 500);
    assert_eq!(
        build_feed_response(Err(FetchError::RequestConstruction)).unwrap_err().status(),
        500
    );
    assert_eq!(build_feed_response(Err(FetchError::UpstreamBodyRead)).unwrap_err().status(), 502);
}

#[test]
fn a_content_type_that_cannot_be_sent_fails_the_response() {
    let reply = build_feed_response(Ok(sent("text/html\r\nx: y", "<rss/>")));
    assert_eq!(reply.unwrap_err(), HttpError::ResponseBuild);
}
