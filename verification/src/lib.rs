//! A typed model of build-pipeline documents.
//!
//! A pipeline document is handed over as an untyped tree ([`value`]). The
//! decoders ([`decode`], [`schema`]) turn it into typed stages, jobs and steps
//! and refuse every node that does not fit its shape: a node of a
//! polymorphic kind is tried against its candidate shapes in a fixed order.
//! The encoders ([`encode`]) write typed values back as trees, and decoding
//! what they wrote gives the typed values back. The validator
//! ([`validator`]) checks that every `dependsOn` reference names a stage, or
//! a job of the same stage, that was introduced earlier.

pub mod decode;
pub mod encode;
pub mod error;
pub mod fields;
pub mod schema;
pub mod templates;
pub mod validator;
pub mod value;
