//! Turns web pages that publish no feed of their own into RSS feeds, and
//! serves them with an hour-long cache.
//!
//! `page` reads the parts of an HTML page that a feed is built from, `feed`
//! models an RSS channel and renders it, `digest` and `text` hold the small
//! encodings the feeds need, `sites` holds one feed builder per web site, and
//! `service` decides, request by request, what to answer and what to cache.

pub mod digest;
pub mod feed;
pub mod page;
pub mod service;
pub mod sites;
pub mod text;
