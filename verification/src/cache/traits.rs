//! The contract of cache storage backends.

use core::time::Duration;
use vstd::prelude::*;

verus! {

/// A key/value store with optional expiry, for callers to implement.
///
/// The store is shared: every operation takes a shared reference, and an
/// implementation serializes concurrent reads and writes by itself. It
/// decides by its own clock when a value has expired, so nothing is
/// promised here of what a read gives.
pub trait CacheStorage: Send + Sync {
    /// Get a value by key.
    fn get(&self, key: &str) -> Option<Vec<u8>>;

    /// Set a value with optional TTL.
    fn set(&self, key: &str, value: &[u8], ttl: Option<Duration>);

    /// Remove a value by key.
    fn remove(&self, key: &str);

    /// Clear all cached values.
    fn clear(&self);

    /// Scan keys with a prefix.
    fn scan_prefix(&self, prefix: &str) -> Vec<String>;
}

} // verus!
