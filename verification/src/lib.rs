//! Canary deployment health gate: log classification, behavioral tests and a
//! promote / hold / rollback recommendation engine.

pub mod api;
pub mod behavior;
pub mod classification;
pub mod cli;
pub mod config;
pub mod db;
pub mod error;
pub mod events;
pub mod ingestion;
pub mod metrics;
pub mod operator;
pub mod recommendation;
pub mod stats;
pub mod text;
pub mod tui;
pub mod verdict;
