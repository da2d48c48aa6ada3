//! Client-side engine for secure multi-party group messaging.
//!
//! The crate keeps per-group cryptographic session state (membership,
//! epoch advancement, key derivation) and prepares the line-framed
//! envelopes exchanged with a delivery service.  Cryptographic
//! primitives are supplied by an external provider; everything that
//! sequences them is verified.

pub mod client;
pub mod codec;
pub mod command;
pub mod config;
pub mod crypto;
pub mod errors;
pub mod mls_client;
pub mod network;
pub mod registry;
pub mod screen;
pub mod session;
pub mod ui;
