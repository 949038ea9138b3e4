//! Core of a breadth-first web crawler: URL normalization, a host/path
//! blocklist, at-most-once admission of URLs, a compressed page cache codec,
//! link extraction and resolution, word tallying, and completion detection.
//! Network, file and thread plumbing live outside this crate.

pub mod text;
pub mod urls;
pub mod filter;
pub mod dedup;
pub mod codec;
pub mod extract;
pub mod tally;
pub mod engine;
pub mod report;
