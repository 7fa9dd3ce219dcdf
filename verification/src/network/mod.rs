//! What the wire protocols say, as functions on bytes: which protocol a
//! connection speaks, and what is answered to which request. Reading from
//! and writing to a connection is the host's part.

pub mod memcached;
pub mod protocol;
pub mod redis;
