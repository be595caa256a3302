//! Core of a local code-search service: extension classification, pattern
//! matching, match assembly, search bookkeeping and the snapshot cache.
pub mod cache;
pub mod error;
pub mod ext;
pub mod matcher;
pub mod murmur;
pub mod params;
pub mod result;
pub mod search;
pub mod sink;
