use workingdb::network::protocol::{detect_protocol, has_prefix, Protocol};

/// A buffer of 4096 zero bytes that starts with `bytes`.
fn peeked(bytes: &[u8]) -> Vec<u8> {
    let mut buffer = vec![0u8; 4096];
    buffer[..bytes.len()].copy_from_slice(bytes);
    buffer
}

#[test]
fn protocol_nothing_peeked_is_unknown() {
    assert_eq!(detect_protocol(&peeked(b"*1\r\n"), 0), Protocol::Unknown);
    assert_eq!(detect_protocol(&[], 0), Protocol::Unknown);
}

#[test]
fn protocol_redis_is_told_by_its_marker() {
    for first in [b'*', b'$', b'+', b'-', b':'] {
        assert_eq!(detect_protocol(&peeked(&[first, b'x']), 2), Protocol::Redis);
        assert_eq!(detect_protocol(&[first], 1), Protocol::Redis);
    }
}

#[test]
fn protocol_memcached_is_told_by_its_command_words() {
    for line in ["get k\r\n", "set k 0 0 1\r\n", "add k 0 0 1\r\n", "replace k 0 0 1\r\n", "delete k\r\n"] {
        assert_eq!(detect_protocol(&peeked(line.as_bytes()), line.len()), Protocol::Memcached);
    }
    // The word needs its blank, and its lower case.
    assert_eq!(detect_protocol(&peeked(b"get\r\n"), 5), Protocol::Unknown);
    assert_eq!(detect_protocol(&peeked(b"GET k\r\n"), 7), Protocol::Unknown);
    assert_eq!(detect_protocol(&peeked(b"stats\r\n"), 7), Protocol::Unknown);
    assert_eq!(detect_protocol(b"get", 3), Protocol::Unknown);
}

#[test]
fn protocol_sqlite_is_told_by_two_letters_in_a_long_buffer() {
    assert_eq!(detect_protocol(&peeked(b"SQLite format 3\0"), 16), Protocol::SQLite);
    assert_eq!(detect_protocol(&peeked(b"SQ"), 2), Protocol::SQLite);
    // A buffer of fewer than 16 bytes is too short to tell.
    assert_eq!(detect_protocol(b"SQLite format 3", 15), Protocol::Unknown);
    assert_eq!(detect_protocol(&peeked(b"SX"), 2), Protocol::Unknown);
}

#[test]
fn protocol_anything_else_is_unknown() {
    assert_eq!(detect_protocol(&peeked(b"hello"), 5), Protocol::Unknown);
    assert_eq!(detect_protocol(&peeked(&[0]), 1), Protocol::Unknown);
}

#[test]
fn protocol_prefixes() {
    assert!(has_prefix(b"get key", b"get "));
    assert!(has_prefix(b"get ", b"get "));
    assert!(has_prefix(b"anything", b""));
    assert!(!has_prefix(b"get", b"get "));
    assert!(!has_prefix(b"gex key", b"get "));
    assert!(!has_prefix(b"", b"g"));
}
