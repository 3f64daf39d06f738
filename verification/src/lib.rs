//! Security core of a local-first password vault.
//!
//! The crate authenticates users, derives and manages encryption keys from a
//! master secret, stores password records under authenticated encryption,
//! scores the health of stored credentials, throttles brute-force attempts,
//! and can serve a deterministic decoy vault under duress.

pub mod auth;
pub mod commands;
pub mod crypto;
pub mod export;
pub mod monitor;
pub mod passgen;
pub mod rotation;
pub mod scoring;
pub mod store;
pub mod decoy;
pub mod errors;
pub mod sys;

pub use errors::CoreError;
pub use sys::get_current_timestamp;
