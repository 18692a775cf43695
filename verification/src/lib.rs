//! A verified core for a local music library: a directory-scan pipeline that
//! classifies and filters audio files, and a content-addressed, three-tier
//! cover-image cache with deduplication and mark-and-sweep cleanup.
//!
//! All filesystem and network traffic stays outside this crate; callers hand
//! in the facts they observed (directory listings, file bytes, HTTP response
//! data) and receive fully determined results or write/delete plans back.

pub mod cover;
pub mod hashing;
pub mod scan;
pub mod imaging;
pub mod text;
