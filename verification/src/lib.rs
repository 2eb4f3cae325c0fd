//! Decision core of a dynamic-DNS updater.
//!
//! The crate keeps one record per configured domain, compares each freshly
//! resolved public address against the last address known to be published,
//! and decides when a provider update call is due, how transient provider
//! failures back off, and when a domain is disabled for the rest of the run.
//! All I/O (argument parsing, address discovery, the provider API itself)
//! stays outside; the functions here work on plain values and carry proofs.

pub mod backoff;
pub mod config;
pub mod digits;
pub mod engine;
pub mod ip;
pub mod record;
pub mod resolver;
pub mod scheduler;
pub mod text;
