//! Aggregates per-dependency usage-rules documentation fragments into a
//! consolidated output document, preserving user-authored content across
//! regenerations via a marker-delimited merge.
//!
//! The library is the pure core: selecting fragments, rendering them
//! deterministically in inline or linked form, and extracting the preamble of
//! a prior output. All file and process I/O lives outside it; callers hand
//! the library plain values (paths and file contents as strings) and receive
//! the composed documents back.

pub mod aggregator;
pub mod laws;
pub mod metadata;
pub mod scanner;
pub mod text;
pub mod writer;
