//! Telling the protocol of a connection by the first bytes it sends.

use vstd::prelude::*;

verus! {

/// The protocol that a connection speaks.
#[derive(Clone, Copy, Debug, PartialEq, Eq, Structural)]
pub enum Protocol {
    Redis,
    Memcached,
    SQLite,
    Unknown,
}

/// A byte with which a Redis message starts: `*`, `$`, `+`, `-` or `:`.
pub open spec fn is_redis_marker(byte: u8) -> bool {
    byte == 42 || byte == 36 || byte == 43 || byte == 45 || byte == 58
}

/// `get `
pub open spec fn word_get() -> Seq<u8> {
    seq![103u8, 101u8, 116u8, 32u8]
}

/// `set `
pub open spec fn word_set() -> Seq<u8> {
    seq![115u8, 101u8, 116u8, 32u8]
}

/// `add `
pub open spec fn word_add() -> Seq<u8> {
    seq![97u8, 100u8, 100u8, 32u8]
}

/// `replace `
pub open spec fn word_replace() -> Seq<u8> {
    seq![114u8, 101u8, 112u8, 108u8, 97u8, 99u8, 101u8, 32u8]
}

/// `delete `
pub open spec fn word_delete() -> Seq<u8> {
    seq![100u8, 101u8, 108u8, 101u8, 116u8, 101u8, 32u8]
}

/// Whether `buffer` starts with one of the words that open a Memcached
/// text command.
pub open spec fn starts_memcached(buffer: Seq<u8>) -> bool {
    ||| word_get().is_prefix_of(buffer)
    ||| word_set().is_prefix_of(buffer)
    ||| word_add().is_prefix_of(buffer)
    ||| word_replace().is_prefix_of(buffer)
    ||| word_delete().is_prefix_of(buffer)
}

/// The protocol of a connection of which `n` bytes were peeked into
/// `buffer`. Nothing peeked tells nothing; a Redis marker in the first
/// byte tells Redis; a Memcached command word at the start tells
/// Memcached; `SQ` at the start of a buffer of at least 16 bytes tells
/// SQLite. The tests are made in this order.
pub open spec fn spec_detect(buffer: Seq<u8>, n: nat) -> Protocol {
    if n == 0 {
        Protocol::Unknown
    } else if is_redis_marker(buffer[0]) {
        Protocol::Redis
    } else if starts_memcached(buffer) {
        Protocol::Memcached
    } else if buffer.len() >= 16 && buffer[0] == 0x53 && buffer[1] == 0x51 {
        Protocol::SQLite
    } else {
        Protocol::Unknown
    }
}

/// Whether `buffer` starts with `prefix`.
pub fn has_prefix(buffer: &[u8], prefix: &[u8]) -> (starts: bool)
    ensures
        starts == prefix@.is_prefix_of(buffer@),
{
    if prefix.len() > buffer.len() {
        return false;
    }
    let mut i: usize = 0;
    while i < prefix.len()
        invariant
            prefix.len() <= buffer.len(),
            i <= prefix.len(),
            forall|j: int| 0 <= j < i ==> prefix@[j] == buffer@[j],
        decreases prefix.len() - i,
    {
        if prefix[i] != buffer[i] {
            assert(buffer@.subrange(0, prefix@.len() as int)[i as int] != prefix@[i as int]);
            return false;
        }
        i = i + 1;
    }
    assert(buffer@.subrange(0, prefix@.len() as int) =~= prefix@);
    true
}

/// Tell the protocol of a connection of which `n` bytes were peeked into
/// `buffer`.
pub fn detect_protocol(buffer: &[u8], n: usize) -> (protocol: Protocol)
    requires
        n <= buffer@.len(),
    ensures
        protocol == spec_detect(buffer@, n as nat),
{
    if n == 0 {
        return Protocol::Unknown;
    }
    let first = buffer[0];
    if first == 42 || first == 36 || first == 43 || first == 45 || first == 58 {
        return Protocol::Redis;
    }
    let get: [u8; 4] = [103, 101, 116, 32];
    let set: [u8; 4] = [115, 101, 116, 32];
    let add: [u8; 4] = [97, 100, 100, 32];
    let replace: [u8; 8] = [114, 101, 112, 108, 97, 99, 101, 32];
    let delete: [u8; 7] = [100, 101, 108, 101, 116, 101, 32];
    proof {
        assert(get@ =~= word_get());
        assert(set@ =~= word_set());
        assert(add@ =~= word_add());
        assert(replace@ =~= word_replace());
        assert(delete@ =~= word_delete());
    }
    if has_prefix(buffer, get.as_slice()) || has_prefix(buffer, set.as_slice()) || has_prefix(
        buffer,
        add.as_slice(),
    ) || has_prefix(buffer, replace.as_slice()) || has_prefix(buffer, delete.as_slice()) {
        return Protocol::Memcached;
    }
    if buffer.len() >= 16 && buffer[0] == 0x53 && buffer[1] == 0x51 {
        return Protocol::SQLite;
    }
    Protocol::Unknown
}

} // verus!
