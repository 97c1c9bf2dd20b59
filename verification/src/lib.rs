//! An append-only, access-controlled message registry.
//!
//! Callers store email-like records and later retrieve them by index or by
//! recipient, subject to ownership rules: the registry has a single owner,
//! fixed at creation, and privileged reads are gated on the caller's
//! identity. A secondary directory binds human-chosen aliases to
//! identities, so that a message can be addressed by alias.
//!
//! The hosting environment supplies the authenticated caller identity and
//! a timestamp for each operation; both enter every function here as plain
//! arguments.

pub mod contract;
pub mod laws;
pub mod types;

pub use contract::EmailContract;
pub use types::{EmailError, EmailMessage, Identity, User};
