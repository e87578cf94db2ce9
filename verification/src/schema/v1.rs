//! The first version of the schema.

pub mod depends;
pub mod extends;
pub mod job;
pub mod pipeline;
pub mod stage;
pub mod step;
pub mod trigger;
