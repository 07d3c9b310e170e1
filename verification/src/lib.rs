//! Request-authentication and tenant-authorization resolution.
//!
//! The crate establishes who the caller of an inbound API request is
//! (locally verified bearer tokens with reactive signing-key rotation,
//! a remote-verification fallback, and a gated development override)
//! and caches the expensive "is this caller allowed to act on this
//! tenant" fact in a TTL-bounded, stampede-safe cache.

pub mod cache;
pub mod caches;
pub mod config;
pub mod cron;
pub mod errors;
pub mod jwt;
pub mod keys;
pub mod principal;
pub mod readiness;
pub mod requests;
pub mod security;
pub mod strings;
pub mod text;
pub mod token_hash;
