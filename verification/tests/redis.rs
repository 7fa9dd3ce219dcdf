use workingdb::network::redis::{
    bulk_string, error, execute, integer, interpret, parse_bulk_string, parse_command,
    parse_integer, parse_request, simple_string, RedisCommand, RespError, Scan,
};
use workingdb::persistence::aof::AppendOnlyFile;
use workingdb::storage::memory::MemTable;
use workingdb::GlobalState;

fn fresh() -> GlobalState {
    GlobalState::new(MemTable::new(), AppendOnlyFile::new(0))
}

fn parts(words: &[&[u8]]) -> Vec<Vec<u8>> {
    words.iter().map(|w| w.to_vec()).collect()
}

#[test]
fn redis_replies_as_bytes() {
    assert_eq!(simple_string(b"OK"), b"+OK\r\n".to_vec());
    assert_eq!(simple_string(b""), b"+\r\n".to_vec());
    assert_eq!(error(b"ERR no"), b"-ERR no\r\n".to_vec());
    assert_eq!(bulk_string(Some(b"hello")), b"$5\r\nhello\r\n".to_vec());
    assert_eq!(bulk_string(Some(b"")), b"$0\r\n\r\n".to_vec());
    assert_eq!(bulk_string(Some(&[b'x'; 12])), b"$12\r\nxxxxxxxxxxxx\r\n".to_vec());
    assert_eq!(bulk_string(None), b"$-1\r\n".to_vec());
    assert_eq!(integer(0), b":0\r\n".to_vec());
    assert_eq!(integer(1), b":1\r\n".to_vec());
    assert_eq!(integer(-25), b":-25\r\n".to_vec());
}

#[test]
fn redis_integers_are_read_up_to_the_end_of_their_line() {
    assert!(matches!(parse_integer(b"*12\r\nrest", 1), Scan::Done { value: 12, next: 5 }));
    assert!(matches!(parse_integer(b"-3\r\n", 0), Scan::Done { value: -3, next: 4 }));
    assert!(matches!(parse_integer(b"12", 0), Scan::More));
    assert!(matches!(parse_integer(b"12\r", 0), Scan::More));
    assert!(matches!(parse_integer(b"", 0), Scan::More));
    assert!(matches!(parse_integer(b"12\rx", 0), Scan::Bad { error: RespError::ExpectedLf, next: 4 }));
    assert!(matches!(parse_integer(b"\xff\r\n", 0), Scan::Bad { error: RespError::InvalidUtf8, next: 3 }));
    match parse_integer(b"1x\r\n", 0) {
        Scan::Bad { error: RespError::InvalidInteger(text), next: 4 } => assert_eq!(text, b"1x".to_vec()),
        _ => panic!("not a number"),
    }
    match parse_integer(b"\r\n", 0) {
        Scan::Bad { error: RespError::InvalidInteger(text), next: 2 } => assert!(text.is_empty()),
        _ => panic!("not a number"),
    }
}

#[test]
fn redis_bulk_strings_are_read_by_their_length() {
    match parse_bulk_string(b"$3\r\nabc\r\n", 1) {
        Scan::Done { value, next: 9 } => assert_eq!(value, b"abc".to_vec()),
        _ => panic!("a bulk string stands there"),
    }
    match parse_bulk_string(b"0\r\n\r\n", 0) {
        Scan::Done { value, next: 5 } => assert!(value.is_empty()),
        _ => panic!("an empty bulk string stands there"),
    }
    // A negative length stands for nothing, with nothing behind its line.
    match parse_bulk_string(b"-1\r\nxyz", 0) {
        Scan::Done { value, next: 4 } => assert!(value.is_empty()),
        _ => panic!("a null bulk string stands there"),
    }
    // Carriage returns and line feeds may stand in the data.
    match parse_bulk_string(b"4\r\n\r\n\r\n\r\n", 0) {
        Scan::Done { value, next: 9 } => assert_eq!(value, b"\r\n\r\n".to_vec()),
        _ => panic!("a bulk string stands there"),
    }
    assert!(matches!(parse_bulk_string(b"3\r\nab", 0), Scan::More));
    assert!(matches!(parse_bulk_string(b"3\r\nabc", 0), Scan::More));
    assert!(matches!(parse_bulk_string(b"3\r\nabc\r", 0), Scan::More));
    assert!(matches!(parse_bulk_string(b"9223372036854775807\r\nabc\r\n", 0), Scan::More));
    assert!(matches!(
        parse_bulk_string(b"3\r\nabcde", 0),
        Scan::Bad { error: RespError::ExpectedCrlf, next: 8 }
    ));
}

#[test]
fn redis_requests_are_arrays_of_bulk_strings() {
    match parse_request(b"*2\r\n$3\r\nGET\r\n$1\r\nk\r\n*1\r\n") {
        Scan::Done { value, next: 20 } => assert_eq!(value, parts(&[b"GET", b"k"])),
        _ => panic!("a request stands there"),
    }
    match parse_request(b"*0\r\n") {
        Scan::Done { value, next: 4 } => assert!(value.is_empty()),
        _ => panic!("an empty request stands there"),
    }
    match parse_request(b"*-1\r\n") {
        Scan::Done { value, next: 5 } => assert!(value.is_empty()),
        _ => panic!("an empty request stands there"),
    }
    assert!(matches!(parse_request(b""), Scan::More));
    assert!(matches!(parse_request(b"*"), Scan::More));
    assert!(matches!(parse_request(b"*2\r\n"), Scan::More));
    assert!(matches!(parse_request(b"*2\r\n$3\r\nGET\r\n"), Scan::More));
    assert!(matches!(parse_request(b"*2\r\n$3\r\nGET\r\n$1\r\nk"), Scan::More));
    assert!(matches!(
        parse_request(b"GET k\r\n"),
        Scan::Bad { error: RespError::UnsupportedType(b'G'), next: 1 }
    ));
    assert!(matches!(
        parse_request(b"*1\r\n+OK\r\n"),
        Scan::Bad { error: RespError::ExpectedBulk(b'+'), next: 5 }
    ));
    assert!(matches!(
        parse_request(b"*x\r\n"),
        Scan::Bad { error: RespError::InvalidInteger(_), next: 4 }
    ));
}

#[test]
fn redis_commands_are_told_from_their_parts() {
    assert!(matches!(interpret(&parts(&[b"GET", b"k"])), Ok(RedisCommand::Get(k)) if k == b"k"));
    assert!(matches!(interpret(&parts(&[b"get", b"k"])), Ok(RedisCommand::Get(k)) if k == b"k"));
    assert!(matches!(interpret(&parts(&[b"gEt", b"k"])), Ok(RedisCommand::Get(k)) if k == b"k"));
    assert!(matches!(
        interpret(&parts(&[b"SET", b"k", b"v"])),
        Ok(RedisCommand::SetKey(k, v, None)) if k == b"k" && v == b"v"
    ));
    assert!(matches!(
        interpret(&parts(&[b"set", b"k", b"v", b"ex", b"10"])),
        Ok(RedisCommand::SetKey(_, _, Some(10)))
    ));
    assert!(matches!(
        interpret(&parts(&[b"SET", b"k", b"v", b"EX", b"+7", b"more"])),
        Ok(RedisCommand::SetKey(_, _, Some(7)))
    ));
    // Seconds that are no number are passed over; so is an option without seconds.
    assert!(matches!(
        interpret(&parts(&[b"SET", b"k", b"v", b"EX", b"soon"])),
        Ok(RedisCommand::SetKey(_, _, None))
    ));
    assert!(matches!(
        interpret(&parts(&[b"SET", b"k", b"v", b"EX", b"-1"])),
        Ok(RedisCommand::SetKey(_, _, None))
    ));
    assert!(matches!(
        interpret(&parts(&[b"SET", b"k", b"v", b"EX"])),
        Ok(RedisCommand::SetKey(_, _, None))
    ));
    assert!(matches!(
        interpret(&parts(&[b"SET", b"k", b"v", b"PX", b"10"])),
        Ok(RedisCommand::SetKey(_, _, None))
    ));
    assert!(matches!(
        interpret(&parts(&[b"SET", b"k", b"v", b"EX", b"\xff"])),
        Err(RespError::InvalidTtl)
    ));
    assert!(matches!(interpret(&parts(&[b"DEL", b"k"])), Ok(RedisCommand::Del(k)) if k == b"k"));
    assert!(matches!(interpret(&parts(&[b"PING"])), Ok(RedisCommand::Ping)));
    assert!(matches!(interpret(&parts(&[b"ping", b"extra"])), Ok(RedisCommand::Ping)));
    assert!(matches!(interpret(&parts(&[b"Info"])), Ok(RedisCommand::Info)));
    assert!(matches!(interpret(&parts(&[])), Err(RespError::EmptyCommand)));
    // A known name with the wrong number of parts is not known.
    assert!(matches!(
        interpret(&parts(&[b"get"])),
        Err(RespError::UnsupportedCommand(name)) if name == b"GET"
    ));
    assert!(matches!(
        interpret(&parts(&[b"GET", b"a", b"b"])),
        Err(RespError::UnsupportedCommand(_))
    ));
    assert!(matches!(interpret(&parts(&[b"SET", b"k"])), Err(RespError::UnsupportedCommand(_))));
    assert!(matches!(
        interpret(&parts(&[b"DEL", b"a", b"b"])),
        Err(RespError::UnsupportedCommand(_))
    ));
    assert!(matches!(
        interpret(&parts(&[b"flushall"])),
        Err(RespError::UnsupportedCommand(name)) if name == b"FLUSHALL"
    ));
}

#[test]
fn redis_commands_are_read_from_a_buffer() {
    let wire = b"*3\r\n$3\r\nSET\r\n$1\r\nk\r\n$2\r\nvv\r\n*1\r\n$4\r\nPING\r\n";
    match parse_command(wire) {
        Scan::Done { value: RedisCommand::SetKey(key, value, None), next } => {
            assert_eq!(key, b"k".to_vec());
            assert_eq!(value, b"vv".to_vec());
            assert_eq!(next, 28);
            assert!(matches!(
                parse_command(&wire[next..]),
                Scan::Done { value: RedisCommand::Ping, next: 14 }
            ));
        }
        _ => panic!("a command stands there"),
    }
    assert!(matches!(parse_command(&wire[..27]), Scan::More));
    assert!(matches!(
        parse_command(b"*1\r\n$3\r\nfoo\r\n"),
        Scan::Bad { error: RespError::UnsupportedCommand(_), next: 13 }
    ));
    assert!(matches!(
        parse_command(b"*0\r\n"),
        Scan::Bad { error: RespError::EmptyCommand, next: 4 }
    ));
}

#[test]
fn redis_refusals_in_words() {
    let said = |e: RespError| String::from_utf8(e.message()).unwrap();
    assert_eq!(said(RespError::UnsupportedType(b'G')), "Unsupported RESP type: G");
    assert_eq!(said(RespError::UnsupportedType(0xe9)), "Unsupported RESP type: \u{e9}");
    assert_eq!(said(RespError::ExpectedBulk(b'+')), "Expected bulk string in array, got: +");
    assert_eq!(said(RespError::ExpectedLf), "Expected LF after CR");
    assert_eq!(said(RespError::InvalidUtf8), "Invalid UTF-8 in integer");
    assert_eq!(said(RespError::InvalidInteger(b"1x".to_vec())), "Invalid integer: 1x");
    assert_eq!(said(RespError::ExpectedCrlf), "Expected CRLF after bulk string");
    assert_eq!(said(RespError::EmptyCommand), "Empty command");
    assert_eq!(said(RespError::UnsupportedCommand(b"FOO".to_vec())), "Unsupported command: \"FOO\"");
    assert_eq!(
        said(RespError::UnsupportedCommand(b"A\"B\n\xff".to_vec())),
        "Unsupported command: \"A\\\"B\\n\u{fffd}\""
    );
    assert_eq!(said(RespError::InvalidTtl), "Invalid TTL value");
    assert_eq!(RespError::EmptyCommand.reply(), b"-ERR Empty command\r\n".to_vec());
    assert_eq!(
        RespError::UnsupportedCommand(b"FOO".to_vec()).reply(),
        b"-ERR Unsupported command: \"FOO\"\r\n".to_vec()
    );
}

#[test]
fn redis_commands_are_carried_out() {
    let mut db = fresh();
    assert_eq!(execute(&mut db, RedisCommand::Ping), b"+PONG\r\n".to_vec());
    assert_eq!(execute(&mut db, RedisCommand::Get(b"k".to_vec())), b"$-1\r\n".to_vec());
    assert_eq!(
        execute(&mut db, RedisCommand::SetKey(b"k".to_vec(), b"value".to_vec(), None)),
        b"+OK\r\n".to_vec()
    );
    assert_eq!(execute(&mut db, RedisCommand::Get(b"k".to_vec())), b"$5\r\nvalue\r\n".to_vec());
    assert_eq!(execute(&mut db, RedisCommand::Del(b"k".to_vec())), b":1\r\n".to_vec());
    assert_eq!(execute(&mut db, RedisCommand::Del(b"k".to_vec())), b":0\r\n".to_vec());
    assert_eq!(execute(&mut db, RedisCommand::Get(b"k".to_vec())), b"$-1\r\n".to_vec());
    let (_, reads, writes, deletes, _, _) = db.get_stats();
    assert_eq!((reads, writes, deletes), (3, 1, 2));
    // What was written is in the log.
    assert_eq!(db.take_pending().len(), (35 + 1 + 5) + (35 + 1) + (35 + 1));
}

#[test]
fn redis_a_failed_write_is_answered_with_the_failure() {
    let mut db = fresh();
    let key = vec![b'k'; 65_536];
    assert_eq!(
        execute(&mut db, RedisCommand::SetKey(key.clone(), b"v".to_vec(), None)),
        b"-ERR AOF write failed: Key too large\r\n".to_vec()
    );
    assert_eq!(
        execute(&mut db, RedisCommand::Del(key)),
        b"-ERR AOF delete failed: Key too large\r\n".to_vec()
    );
}

#[test]
fn redis_seconds_after_ex_are_the_time_to_live() {
    let mut db = fresh();
    execute(&mut db, RedisCommand::SetKey(b"k".to_vec(), b"v".to_vec(), Some(3600)));
    execute(&mut db, RedisCommand::SetKey(b"gone".to_vec(), b"v".to_vec(), Some(0)));
    let start = std::time::Instant::now();
    while start.elapsed() < std::time::Duration::from_millis(5) {
        std::hint::spin_loop();
    }
    assert_eq!(execute(&mut db, RedisCommand::Get(b"k".to_vec())), b"$1\r\nv\r\n".to_vec());
    assert_eq!(execute(&mut db, RedisCommand::Get(b"gone".to_vec())), b"$-1\r\n".to_vec());
}

#[test]
fn redis_info_holds_the_counters() {
    let mut db = fresh();
    execute(&mut db, RedisCommand::SetKey(b"k".to_vec(), b"v".to_vec(), None));
    execute(&mut db, RedisCommand::Del(b"k".to_vec()));
    let reply = String::from_utf8(execute(&mut db, RedisCommand::Info)).unwrap();
    let (_, _, _, _, avg_read, avg_write) = db.get_stats();
    // The uptime is read from the clock: a few seconds at most.
    let expected: Vec<String> = (0..5)
        .map(|secs| {
            let text = format!(
                "# Server\r\nworkingdb_version:0.1.0\r\nuptime_seconds:{}\r\n# Stats\r\ntotal_reads:0\r\ntotal_writes:1\r\ntotal_deletes:1\r\navg_read_latency_ns:{}\r\navg_write_latency_ns:{}\r\n",
                secs, avg_read, avg_write
            );
            format!("${}\r\n{}\r\n", text.len(), text)
        })
        .collect();
    assert!(expected.contains(&reply), "{:?}", reply);
}

#[test]
fn redis_failures_in_words_are_errors() {
    assert_eq!(
        workingdb::network::redis::failure_reply(&"AOF write failed: disk full".to_string()),
        b"-ERR AOF write failed: disk full\r\n".to_vec()
    );
}
