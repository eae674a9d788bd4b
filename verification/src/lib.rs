//! A focused web crawler: a deduplicating work frontier, the decisions of the
//! crawl loop, a fetcher with an on-disk cache and a throttled client pool,
//! and a layout-driven extraction pipeline.

pub mod html;
pub mod layout;
pub mod parser;
pub mod requester;
pub mod spider;
pub mod text;
pub mod url;
pub mod worm_wiki;
