//! A verified core for a markdown reading session.
//!
//! The crate compiles a flat stream of markdown parse events into a stream of
//! renderable blocks, extracts a table of contents, indexes the raw text for
//! substring search with circular result navigation, splits inline text into
//! styled runs around search matches, and keeps a per-document image cache.
//! Text is handled as sequences of characters throughout, so every offset in a
//! contract is a character offset.

pub mod block;
pub mod compile;
pub mod event;
pub mod image;
pub mod parse;
pub mod runs;
pub mod search;
pub mod session;
pub mod text;
pub mod toc;
