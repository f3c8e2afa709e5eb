//! Cache storage.

pub mod memory;
pub mod traits;

pub use memory::MemoryCache;
pub use traits::CacheStorage;
