//! The link-rewrite and metadata-extraction engine of a chat bot.
//!
//! Two commands are served. One scans a message for links of a known
//! social-media family and rewrites their hosts to embed-friendly ones,
//! splicing the rewritten URLs back into the text. The other takes a link
//! to a content page and, from the page's HTML, extracts Open Graph
//! metadata and assembles a rich preview record.
//!
//! Every function here is pure and synchronous: the platform gateway, the
//! HTTP fetching and the response sending live outside the engine and
//! hand it plain values.
use vstd::prelude::*;

pub mod text;
pub mod links;
pub mod metadata;
pub mod interaction;

verus! {

/// Configuration the bot is started with.
pub struct Config {
    pub bot_token: String,
}

} // verus!
