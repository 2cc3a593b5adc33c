//! Deterministic partitioning of a stream of line records.
//!
//! Each record is hashed with 64-bit FNV-1a over its raw bytes and sent to
//! partition `hash % num_partitions`. A filter configured with one partition
//! index forwards exactly the records assigned to it, in input order.

pub mod hash;
pub mod assign;
pub mod common;
pub mod filter;
pub mod laws;
