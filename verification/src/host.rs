//! Sending requests for the former host name on to the current one.
//!
//! A request that names the former host is answered with a permanent
//! redirect to the same path and query on the current host, over HTTPS.
//! Any other request is handled as it is.

use vstd::prelude::*;

verus! {

/// The host name under which the relay was reached before.
pub const FORMER_HOST: &'static str = "xkcd-with-alt-text.joshka.net";

/// The host name under which the relay is reached now.
pub const CURRENT_HOST: &'static str = "xkcdwat.joshka.net";

/// The scheme of every address that a client is sent on to.
pub const SCHEME: &'static str = "https";

/// What is done with a request, by the host it names.
#[derive(Debug)]
pub enum HostRoute {
    /// The request is handled as it is.
    Forward,
    /// The client is sent on, for good, to the address held here.
    Redirect(String),
    /// The request names the former host, but its path and query give no
    /// address to send the client on to.
    NoTarget,
}

/// The text in lower case, as std's `str::to_lowercase` gives it.
pub uninterp spec fn lowercase_of(text: Seq<char>) -> Seq<char>;

/// The address of the given scheme, authority, and path and query, as the
/// `http` crate writes it; nothing where these make no address.
pub uninterp spec fn uri_text(scheme: Seq<char>, authority: Seq<char>, path_and_query: Seq<char>)
    -> Option<Seq<char>>;

/// The address that was made, as a sequence.
pub open spec fn made(uri: Option<String>) -> Option<Seq<char>> {
    match uri {
        Some(text) => Some(text@),
        None => None,
    }
}

/// `str::to_lowercase` of std. Nothing is claimed of the result but that
/// it depends on the text alone.
#[verifier::external_body]
fn to_lowercase(text: &str) -> (lower: String)
    ensures
        lower@ == lowercase_of(text@),
{
    text.to_lowercase()
}

/// `Uri::builder` of the `http` crate with `scheme`, `authority` and
/// `path_and_query`, its `build`, and the `to_string` of what was built.
/// Nothing is claimed of the result but that it depends on the three
/// texts alone.
#[verifier::external_body]
fn build_uri(scheme: &str, authority: &str, path_and_query: &str) -> (uri: Option<String>)
    ensures
        made(uri) == uri_text(scheme@, authority@, path_and_query@),
{
    let built = http::Uri::builder().scheme(scheme).authority(authority).path_and_query(
        path_and_query,
    ).build();
    built.ok().map(|uri| uri.to_string())
}

/// `route` is what is done with a request whose host name, in lower
/// case, is `lower_host`, where `target` is the address on the current
/// host, if there is one: a redirect to it for the former host, and the
/// request as it is for any other.
pub open spec fn is_routed(route: HostRoute, lower_host: Seq<char>, target: Option<Seq<char>>)
    -> bool {
    if lower_host == FORMER_HOST@ {
        match target {
            Some(address) => route matches HostRoute::Redirect(to) && to@ == address,
            None => route is NoTarget,
        }
    } else {
        route is Forward
    }
}

/// Tells whether a host name, given in lower case, is the former one.
pub fn is_former_host(lower_host: &str) -> (former: bool)
    ensures
        former == (lower_host@ == FORMER_HOST@),
{
    lower_host.to_owned() == FORMER_HOST.to_owned()
}

/// Tells whether a request names the former host, in whatever case.
pub fn names_former_host(host: &str) -> (former: bool)
    ensures
        former == (lowercase_of(host@) == FORMER_HOST@),
{
    let lower = to_lowercase(host);
    is_former_host(lower.as_str())
}

/// Decides what is done with a request, from its host name in lower case
/// and the address on the current host, if there is one.
pub fn route_for(lower_host: &str, target: Option<String>) -> (route: HostRoute)
    ensures
        is_routed(route, lower_host@, made(target)),
{
    if is_former_host(lower_host) {
        match target {
            Some(address) => HostRoute::Redirect(address),
            None => HostRoute::NoTarget,
        }
    } else {
        HostRoute::Forward
    }
}

/// Decides what is done with a request, from the host it names and its
/// path and query: a request for the former host, in whatever case it is
/// written, is sent on to the same path and query on the current host.
pub fn redirect_host_name(host: &str, path_and_query: &str) -> (route: HostRoute)
    ensures
        is_routed(
            route,
            lowercase_of(host@),
            uri_text(SCHEME@, CURRENT_HOST@, path_and_query@),
        ),
{
    let lower = to_lowercase(host);
    let target = build_uri(SCHEME, CURRENT_HOST, path_and_query);
    route_for(lower.as_str(), target)
}

} // verus!
