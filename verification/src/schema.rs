//! The pipeline type definitions.

pub mod v1;
