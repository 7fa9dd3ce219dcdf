//! Storage: the sharded table in memory, the sweep of expired entries, and
//! block arithmetic for direct device access.

pub mod disk;
pub mod gc;
pub mod memory;
