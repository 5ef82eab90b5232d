//! A relay for a syndication feed that makes each image's alternative text
//! visible: the feed's title is marked, and after every escaped image tag
//! with an `alt` attribute a paragraph holding that text is inserted.
//!
//! The library holds what the relay decides and computes; requests are
//! received and sent elsewhere.
//!
//! - [`feed`]: what is asked of upstream, and what the client gets.
//! - [`rewriter`]: the rewriting of a feed, built on [`engine`] (the search
//!   for image tags), [`image_tag`] (what such a tag is) and [`annotation`]
//!   (what is inserted, and where).
//! - [`headers`]: the content type that headers give.
//! - [`host`]: the redirect away from the former host name.
//! - [`document`]: the page that tells what the relay is.
//! - [`search`] and [`text`]: byte strings, and texts as their bytes.

pub mod annotation;
pub mod document;
pub mod engine;
pub mod feed;
pub mod headers;
pub mod host;
pub mod image_tag;
pub mod rewriter;
pub mod search;
pub mod text;
