//! Dashboard state and keyboard handling.

pub mod input;
pub mod state;
