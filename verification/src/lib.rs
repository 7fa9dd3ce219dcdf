//! An embeddable key-value storage engine: a sharded in-memory table with
//! per-entry expiry, an append-only record log with replay, a sweep of
//! expired entries, and the state object that sequences writes through both.
//!
//! Around the engine stand the rules of its front ends, as functions on
//! bytes and text: the Redis and Memcached protocols, a SQL parser and
//! planner, the naming of snapshot files, and block arithmetic for direct
//! device access.
//!
//! The library does no input or output and starts no thread. A host opens
//! the files and sockets, serializes access to the state, and hands bytes
//! in and out.

pub mod engine;
pub mod network;
pub mod persistence;
pub mod query;
pub mod storage;
pub mod util;

pub use engine::state::GlobalState;
pub use persistence::aof::AppendOnlyFile;
pub use storage::gc::GarbageCollector;
pub use storage::memory::MemTable;
