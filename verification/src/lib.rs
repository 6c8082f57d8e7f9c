//! Streaming extraction of vehicle records from a large compressed archive.
//!
//! The stream of record elements is decompressed into a fixed ring of
//! reusable byte buffers. Each pair of adjacent buffers is stitched into a
//! boundary-safe window whose byte fragment always holds complete records;
//! a tag-event state machine extracts the records and a filter decides which
//! are kept.

pub mod config;
pub mod header;
pub mod pipeline;
pub mod reader;
pub mod record;
pub mod worker;
pub mod xml;
