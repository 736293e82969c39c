//! The per-method cache capability that the engine consumes.
//!
//! A cache handler is the pluggable strategy for one RPC method: it derives
//! the cache key that identifies a call's result, and it decides whether a
//! freshly computed result is cacheable and how to serialize it for the
//! store.  Handlers are implemented outside this crate; the engine relies on
//! nothing about them beyond their signatures, and every engine contract
//! holds whatever a handler returns.

use vstd::prelude::*;

use serde_json::Value;

verus! {

/// A failure inside a cache handler.  The engine treats key-extraction
/// failures as "not cacheable" and value-extraction failures as a skipped
/// cache write; neither ever fails the client call.
pub struct HandlerError {
    pub message: String,
}

/// The capability contract of one RPC method's cache strategy.
pub trait RpcCacheHandler {
    /// The RPC method this handler serves; used to index the handler table.
    fn method_name(&self) -> String;

    /// The cache key identifying the result of a call with these params, or
    /// `None` when such a call is never cacheable.
    fn extract_cache_key(&self, params: &Value) -> Result<Option<String>, HandlerError>;

    /// Whether this result is cacheable and, if so, the string to store.
    fn extract_cache_value(&self, result: &Value) -> Result<(bool, String), HandlerError>;
}

} // verus!
