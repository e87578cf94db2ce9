//! Support for pipeline templates.

pub mod entrypoints;
pub mod parameterized;
