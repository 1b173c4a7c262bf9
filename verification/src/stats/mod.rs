//! Statistical classification of metric comparisons.

pub mod scoring;
