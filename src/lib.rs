//! A durable archive of task records: records are sharded by year and month,
//! listed through a bounded, order-preserving index, read back with a fallback
//! to the index when a shard is missing or corrupt, and summarised by counts.
//!
//! The library decides; the caller reads and writes the files it names.

pub mod index;
pub mod text;
pub mod error;
pub mod clock;
pub mod shard;
pub mod record;
pub mod archive;
pub mod reader;
pub mod stats;
pub mod laws;
