//! Core of a compression benchmark over synthetic columnar data.
//!
//! The library generates deterministic integer sequences with a chosen
//! statistical shape, samples row positions for random-access trials,
//! wraps sequences into columnar batches, drives the parquet storage
//! backend, and aggregates written sizes into comparison rows.  Every
//! function here is verified; the storage engines themselves are outside
//! collaborators reached through a few trusted wrappers.

pub mod backend;
pub mod bench;
pub mod batch;
pub mod error;
pub mod generate;
pub mod indices;
pub mod parquet;
pub mod pattern;
pub mod rng;
