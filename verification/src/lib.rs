//! A verified core for a caching JSON-RPC reverse proxy.
//!
//! Clients send single or batched JSON-RPC requests addressed to a named
//! upstream chain.  The engine in this crate decomposes a client batch into
//! cache hits and misses, re-batches the misses for one upstream call,
//! reconciles the upstream batch response back into per-id results, emits
//! write-back instructions for newly computed cacheable results, and
//! reassembles the client-visible response in the original request order.
//!
//! All network I/O (the HTTP server, the key-value store, the upstream HTTP
//! client) lives outside this crate; the caller drives the engine phase by
//! phase and performs the I/O between phases.

pub mod engine;
pub mod handler;
pub mod json;
pub mod laws;
pub mod registry;

