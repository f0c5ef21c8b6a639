//! Analytics for a stake-and-attempt farming protocol: per-farmer records and
//! network aggregates updated incrementally, and bounded fixed-point scores
//! derived from the aggregates.
pub mod stats;
pub mod scores;
pub mod analytics;
