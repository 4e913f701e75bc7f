//! Normalization engine for bibliographic article collections.
//!
//! The library turns deeply nested, inconsistently shaped article trees into
//! flat, typed records: mixed-content text is flattened to plain strings,
//! author entries are classified as personal or collective, and citation
//! cross-references are filtered down to one identifier vocabulary.  Batch
//! counters account for the work done, independently of scheduling order.

pub mod authors;
pub mod flatten;
pub mod record;
pub mod refs;
pub mod stats;
pub mod tree;

pub use stats::Stats;
