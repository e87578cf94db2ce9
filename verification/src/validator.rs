//! Checks on a decoded pipeline.

pub mod dependencies;
pub mod laws;
