//! An AI inference gateway core: the verified request-processing pipeline of
//! an HTTP reverse proxy that fronts several language-model providers.
//!
//! The pipeline classifies a request to one of three façades (per-tenant
//! router, provider direct proxy, provider-agnostic unified API),
//! authenticates it, consults a fingerprint-keyed response cache, selects a
//! healthy upstream by weighted draw, and feeds throttling signals back into
//! the provider pool through a rate-limit monitor.
//!
//! Everything here works on plain values (byte vectors, integers, instants as
//! seconds); the HTTP server, the asynchronous plumbing and the outbound
//! network calls live outside this crate and drive it through the two-phase
//! pipeline in [`pipeline`].

pub mod auth;
pub mod balance;
pub mod bytes;
pub mod cache_key;
pub mod cache_layer;
pub mod cache_store;
pub mod classify;
pub mod config;
pub mod hashing;
pub mod monitor;
pub mod parse;
pub mod pipeline;
pub mod types;
