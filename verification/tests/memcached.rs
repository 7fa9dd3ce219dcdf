use workingdb::network::memcached::{
    execute, parse_command, stats_reply, value_reply, MemcachedCommand, MemcachedError, Request,
};
use workingdb::persistence::aof::AppendOnlyFile;
use workingdb::storage::memory::MemTable;
use workingdb::GlobalState;

fn fresh() -> GlobalState {
    GlobalState::new(MemTable::new(), AppendOnlyFile::new(0))
}

#[test]
fn memcached_get_is_read() {
    assert!(matches!(
        parse_command(b"get key\r\nrest"),
        Request::Done { command: MemcachedCommand::Get(k), next: 9 } if k == b"key"
    ));
    assert!(matches!(
        parse_command(b"  GET\t key  other \r\n"),
        Request::Done { command: MemcachedCommand::Get(k), next: 20 } if k == b"key"
    ));
    assert!(matches!(parse_command(b"get key"), Request::More));
    assert!(matches!(parse_command(b"get key\r"), Request::More));
    assert!(matches!(parse_command(b""), Request::More));
}

#[test]
fn memcached_set_is_read_with_its_data() {
    match parse_command(b"set k 5 60 3\r\nabc\r\nget k\r\n") {
        Request::Done { command: MemcachedCommand::SetKey(key, 5, 60, data, false), next: 19 } => {
            assert_eq!(key, b"k".to_vec());
            assert_eq!(data, b"abc".to_vec());
        }
        _ => panic!("a set stands there"),
    }
    assert!(matches!(
        parse_command(b"SET k 0 0 0 noreply\r\n\r\n"),
        Request::Done { command: MemcachedCommand::SetKey(_, 0, 0, d, true), next: 23 } if d.is_empty()
    ));
    // Only the very word mutes the reply.
    assert!(matches!(
        parse_command(b"set k 0 0 1 NOREPLY\r\nx\r\n"),
        Request::Done { command: MemcachedCommand::SetKey(_, _, _, _, false), .. }
    ));
    // The data may hold the end of a line.
    assert!(matches!(
        parse_command(b"set k 0 0 2\r\n\r\n\r\n"),
        Request::Done { command: MemcachedCommand::SetKey(_, _, _, d, _), next: 17 } if d == b"\r\n"
    ));
    assert!(matches!(parse_command(b"set k 0 0 3\r\nab"), Request::More));
    assert!(matches!(parse_command(b"set k 0 0 3\r\nabc\r"), Request::More));
    assert!(matches!(
        parse_command(b"set k 0 0 3\r\nabcde"),
        Request::Bad { error: MemcachedError::ExpectedCrlf, next: 18 }
    ));
}

#[test]
fn memcached_set_with_bad_numbers_is_refused() {
    assert!(matches!(
        parse_command(b"set k x 0 1\r\na\r\n"),
        Request::Bad { error: MemcachedError::InvalidFlags(w), next: 13 } if w == b"x"
    ));
    assert!(matches!(
        parse_command(b"set k 0 -1 1\r\na\r\n"),
        Request::Bad { error: MemcachedError::InvalidExptime(w), next: 14 } if w == b"-1"
    ));
    assert!(matches!(
        parse_command(b"set k 0 4294967296 1\r\na\r\n"),
        Request::Bad { error: MemcachedError::InvalidExptime(_), .. }
    ));
    assert!(matches!(
        parse_command(b"set k 0 0 many\r\na\r\n"),
        Request::Bad { error: MemcachedError::InvalidBytes(w), next: 16 } if w == b"many"
    ));
}

#[test]
fn memcached_delete_stats_and_version_are_read() {
    assert!(matches!(
        parse_command(b"delete k\r\n"),
        Request::Done { command: MemcachedCommand::Delete(k, false), next: 10 } if k == b"k"
    ));
    assert!(matches!(
        parse_command(b"Delete k noreply\r\n"),
        Request::Done { command: MemcachedCommand::Delete(_, true), next: 18 }
    ));
    assert!(matches!(
        parse_command(b"stats\r\n"),
        Request::Done { command: MemcachedCommand::Stats, next: 7 }
    ));
    assert!(matches!(
        parse_command(b"VERSION now\r\n"),
        Request::Done { command: MemcachedCommand::Version, next: 13 }
    ));
}

#[test]
fn memcached_what_is_no_command_is_refused() {
    assert!(matches!(
        parse_command(b"\r\n"),
        Request::Bad { error: MemcachedError::EmptyCommand, next: 2 }
    ));
    assert!(matches!(
        parse_command(b"   \r\n"),
        Request::Bad { error: MemcachedError::EmptyCommand, next: 5 }
    ));
    assert!(matches!(
        parse_command(b"get\r\n"),
        Request::Bad { error: MemcachedError::UnknownCommand(w), next: 5 } if w == b"get"
    ));
    assert!(matches!(
        parse_command(b"set k 0 0\r\n"),
        Request::Bad { error: MemcachedError::UnknownCommand(_), next: 11 }
    ));
    assert!(matches!(
        parse_command(b"Touch k\r\n"),
        Request::Bad { error: MemcachedError::UnknownCommand(w), next: 9 } if w == b"Touch"
    ));
    assert!(matches!(
        parse_command(b"get \xff\r\n"),
        Request::Bad { error: MemcachedError::InvalidUtf8, next: 7 }
    ));
}

#[test]
fn memcached_words_are_split_at_any_white_space_and_lowered_as_text() {
    // U+00A0, the no-break space, and U+3000, the ideographic space, part words.
    assert!(matches!(
        parse_command("get\u{a0}k\u{3000}x\r\n".as_bytes()),
        Request::Done { command: MemcachedCommand::Get(k), .. } if k == b"k"
    ));
    // A line feed alone parts words too.
    assert!(matches!(
        parse_command(b"get\nk\r\n"),
        Request::Done { command: MemcachedCommand::Get(k), next: 7 } if k == b"k"
    ));
    // KELVIN SIGN lowers to `k`; no command has it, so nothing is told by it.
    assert!(matches!(
        parse_command("\u{212a}\r\n".as_bytes()),
        Request::Bad { error: MemcachedError::UnknownCommand(_), .. }
    ));
}

#[test]
fn memcached_refusals_in_words() {
    let said = |e: MemcachedError| String::from_utf8(e.message()).unwrap();
    assert_eq!(said(MemcachedError::InvalidUtf8), "Invalid UTF-8 in command");
    assert_eq!(said(MemcachedError::EmptyCommand), "Empty command");
    assert_eq!(said(MemcachedError::InvalidFlags(b"x".to_vec())), "Invalid flags: x");
    assert_eq!(said(MemcachedError::InvalidExptime(b"y".to_vec())), "Invalid exptime: y");
    assert_eq!(said(MemcachedError::InvalidBytes(b"z".to_vec())), "Invalid bytes: z");
    assert_eq!(said(MemcachedError::ExpectedCrlf), "Expected CRLF after data");
    assert_eq!(said(MemcachedError::UnknownCommand(b"touch".to_vec())), "Unknown command: touch");
    assert_eq!(
        MemcachedError::UnknownCommand(b"touch".to_vec()).reply(),
        b"ERROR Unknown command: touch\r\n".to_vec()
    );
}

#[test]
fn memcached_replies_as_bytes() {
    assert_eq!(value_reply(b"k", Some(b"hello")), b"VALUE k 0 5\r\nhello\r\nEND\r\n".to_vec());
    assert_eq!(value_reply(b"k", Some(b"")), b"VALUE k 0 0\r\n\r\nEND\r\n".to_vec());
    assert_eq!(value_reply(b"k", None), b"END\r\n".to_vec());
    assert_eq!(
        stats_reply(4242, 17, 1, 2, 3, 40, 50),
        b"STAT pid 4242\r\nSTAT uptime 17\r\nSTAT version 0.1.0\r\nSTAT cmd_get 1\r\nSTAT cmd_set 2\r\nSTAT cmd_delete 3\r\nSTAT read_latency_ns 40\r\nSTAT write_latency_ns 50\r\nEND\r\n"
            .to_vec()
    );
}

#[test]
fn memcached_commands_are_carried_out() {
    let mut db = fresh();
    let key = b"k".to_vec();
    assert_eq!(execute(&mut db, MemcachedCommand::Version, 1), b"VERSION 0.1.0\r\n".to_vec());
    assert_eq!(execute(&mut db, MemcachedCommand::Get(key.clone()), 1), b"END\r\n".to_vec());
    assert_eq!(
        execute(&mut db, MemcachedCommand::SetKey(key.clone(), 9, 0, b"v1".to_vec(), false), 1),
        b"STORED\r\n".to_vec()
    );
    assert_eq!(
        execute(&mut db, MemcachedCommand::Get(key.clone()), 1),
        b"VALUE k 0 2\r\nv1\r\nEND\r\n".to_vec()
    );
    assert_eq!(
        execute(&mut db, MemcachedCommand::SetKey(key.clone(), 0, 3600, b"v2".to_vec(), true), 1),
        Vec::<u8>::new()
    );
    assert_eq!(
        execute(&mut db, MemcachedCommand::Get(key.clone()), 1),
        b"VALUE k 0 2\r\nv2\r\nEND\r\n".to_vec()
    );
    assert_eq!(
        execute(&mut db, MemcachedCommand::Delete(key.clone(), false), 1),
        b"DELETED\r\n".to_vec()
    );
    assert_eq!(
        execute(&mut db, MemcachedCommand::Delete(key.clone(), false), 1),
        b"NOT_FOUND\r\n".to_vec()
    );
    assert_eq!(execute(&mut db, MemcachedCommand::Delete(key.clone(), true), 1), Vec::<u8>::new());
    let (_, reads, writes, deletes, avg_read, avg_write) = db.get_stats();
    assert_eq!((reads, writes, deletes), (3, 2, 3));
    let stats = String::from_utf8(execute(&mut db, MemcachedCommand::Stats, 77)).unwrap();
    // The uptime is read from the clock: a few seconds at most.
    let expected: Vec<String> = (0..5)
        .map(|secs| {
            format!(
                "STAT pid 77\r\nSTAT uptime {}\r\nSTAT version 0.1.0\r\nSTAT cmd_get 3\r\nSTAT cmd_set 2\r\nSTAT cmd_delete 3\r\nSTAT read_latency_ns {}\r\nSTAT write_latency_ns {}\r\nEND\r\n",
                secs, avg_read, avg_write
            )
        })
        .collect();
    assert!(expected.contains(&stats), "{:?}", stats);
}

#[test]
fn memcached_a_failed_write_is_answered_with_the_failure() {
    let mut db = fresh();
    let key = vec![b'k'; 65_536];
    assert_eq!(
        execute(&mut db, MemcachedCommand::SetKey(key.clone(), 0, 0, b"v".to_vec(), false), 1),
        b"SERVER_ERROR AOF write failed: Key too large\r\n".to_vec()
    );
    assert_eq!(
        execute(&mut db, MemcachedCommand::SetKey(key.clone(), 0, 0, b"v".to_vec(), true), 1),
        Vec::<u8>::new()
    );
    assert_eq!(
        execute(&mut db, MemcachedCommand::Delete(key, false), 1),
        b"SERVER_ERROR AOF delete failed: Key too large\r\n".to_vec()
    );
}

#[test]
fn memcached_failures_in_words_are_server_errors() {
    assert_eq!(
        workingdb::network::memcached::server_error(&"AOF write failed: disk full".to_string()),
        b"SERVER_ERROR AOF write failed: disk full\r\n".to_vec()
    );
}
