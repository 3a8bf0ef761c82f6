//! Account helpers for a hosted source-code service: the decisions behind
//! listing, storing and describing repositories, verified with Verus.
//!
//! Every remote call (the service's API, the key-value store) is made by the
//! caller; this crate decides what to do with each answer.
pub mod aggregate;
pub mod cli;
pub mod persist;
pub mod report;
pub mod stats;
