//! Durability: the record format of the append-only log, the log itself,
//! what replay recovers, and the naming of snapshot files.

pub mod aof;
pub mod record;
pub mod recovery;
pub mod snapshot;
