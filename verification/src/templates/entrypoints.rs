//! Entry points: the templates that a pipeline extends.

pub mod example;
