//! The Memcached text protocol: requests read from a buffer of received
//! bytes, and replies as bytes.
//!
//! A request is one line that ends in `\r\n`, of words between white space;
//! after the line of a `set` come as many bytes of data as the line says,
//! and `\r\n`. The host collects what it receives in a buffer and asks
//! `parse_command` what stands at its start.

use crate::engine::state::{
    bumped, delete_failure, mean_latency, write_failure, GlobalState, StateView,
};
use crate::network::redis::{crlf, secs_nanos, CR, LF};
use crate::persistence::aof::append_result;
use crate::persistence::record::AofError;
use crate::storage::memory::{expiry_after, lookup, read_is, ttl_nanos, EntryView};
use crate::util::text::{
    bytes_eq, decimal, is_utf8, lowercase, parse_u32, parse_usize, push_decimal, spec_lowercase,
    spec_parse_u32, spec_parse_usize, spec_words, split_words,
};
use std::time::Duration;
use vstd::prelude::*;
use vstd::slice::{slice_subrange, slice_to_vec};
use vstd::string::StringSliceAdditionalSpecFns;
use vstd::utf8::{encode_utf8, valid_utf8};

verus! {

/// Why a request was refused.
pub enum MemcachedError {
    /// The line is not UTF-8 text.
    InvalidUtf8,
    /// The line has no word.
    EmptyCommand,
    /// The flags of a `set`, this word, are not a number of 32 bits.
    InvalidFlags(Vec<u8>),
    /// The expiry of a `set`, this word, is not a number of 32 bits.
    InvalidExptime(Vec<u8>),
    /// The data length of a `set`, this word, is not a number.
    InvalidBytes(Vec<u8>),
    /// The data of a `set` is not followed by the end of a line.
    ExpectedCrlf,
    /// The command of this name is not known, or not with this number of
    /// words.
    UnknownCommand(Vec<u8>),
}

/// `MemcachedError` as plain values.
pub enum MemcachedErrorView {
    InvalidUtf8,
    EmptyCommand,
    InvalidFlags(Seq<u8>),
    InvalidExptime(Seq<u8>),
    InvalidBytes(Seq<u8>),
    ExpectedCrlf,
    UnknownCommand(Seq<u8>),
}

impl View for MemcachedError {
    type V = MemcachedErrorView;

    open spec fn view(&self) -> MemcachedErrorView {
        match *self {
            MemcachedError::InvalidUtf8 => MemcachedErrorView::InvalidUtf8,
            MemcachedError::EmptyCommand => MemcachedErrorView::EmptyCommand,
            MemcachedError::InvalidFlags(w) => MemcachedErrorView::InvalidFlags(w@),
            MemcachedError::InvalidExptime(w) => MemcachedErrorView::InvalidExptime(w@),
            MemcachedError::InvalidBytes(w) => MemcachedErrorView::InvalidBytes(w@),
            MemcachedError::ExpectedCrlf => MemcachedErrorView::ExpectedCrlf,
            MemcachedError::UnknownCommand(w) => MemcachedErrorView::UnknownCommand(w@),
        }
    }
}

/// A command.
pub enum MemcachedCommand {
    /// `get <key>`
    Get(Vec<u8>),
    /// `set <key> <flags> <exptime> <bytes> [noreply]`, then the data: the
    /// key, the flags, the expiry in seconds, the data, and whether no
    /// reply is wanted.
    SetKey(Vec<u8>, u32, u32, Vec<u8>, bool),
    /// `delete <key> [noreply]`: the key, and whether no reply is wanted.
    Delete(Vec<u8>, bool),
    /// `stats`
    Stats,
    /// `version`
    Version,
}

/// `MemcachedCommand` as plain values.
pub enum MemcachedCommandView {
    Get(Seq<u8>),
    SetKey(Seq<u8>, u32, u32, Seq<u8>, bool),
    Delete(Seq<u8>, bool),
    Stats,
    Version,
}

impl View for MemcachedCommand {
    type V = MemcachedCommandView;

    open spec fn view(&self) -> MemcachedCommandView {
        match *self {
            MemcachedCommand::Get(key) => MemcachedCommandView::Get(key@),
            MemcachedCommand::SetKey(key, flags, exptime, data, noreply) => {
                MemcachedCommandView::SetKey(key@, flags, exptime, data@, noreply)
            },
            MemcachedCommand::Delete(key, noreply) => MemcachedCommandView::Delete(key@, noreply),
            MemcachedCommand::Stats => MemcachedCommandView::Stats,
            MemcachedCommand::Version => MemcachedCommandView::Version,
        }
    }
}

/// What stands at the start of a buffer.
pub enum RequestView {
    /// This command, and the next request starts at `next`.
    Done { command: MemcachedCommandView, next: int },
    /// The buffer ends before the request does.
    More,
    /// Nothing well formed: the bytes up to `next` were read to find that.
    Bad { error: MemcachedErrorView, next: int },
}

/// What was read at the start of a buffer.
pub enum Request {
    /// This command, and the next request starts at `next`.
    Done { command: MemcachedCommand, next: usize },
    /// The buffer ends before the request does.
    More,
    /// Nothing well formed: the bytes up to `next` were read to find that.
    Bad { error: MemcachedError, next: usize },
}

impl View for Request {
    type V = RequestView;

    open spec fn view(&self) -> RequestView {
        match *self {
            Request::Done { command, next } => RequestView::Done {
                command: command@,
                next: next as int,
            },
            Request::More => RequestView::More,
            Request::Bad { error, next } => RequestView::Bad { error: error@, next: next as int },
        }
    }
}

/// Where the first end of a line at or after `from` starts in `buf`, and the
/// length of `buf` where there is none.
pub open spec fn find_crlf(buf: Seq<u8>, from: int) -> int
    decreases buf.len() - from,
{
    if from < 0 || from + 1 >= buf.len() {
        buf.len() as int
    } else if buf[from] == CR && buf[from + 1] == LF {
        from
    } else {
        find_crlf(buf, from + 1)
    }
}

/// Whether the word in place `at` is `noreply`.
pub open spec fn wants_no_reply(words: Seq<Seq<u8>>, at: int) -> bool {
    words.len() > at && words[at] == "noreply".spec_bytes()
}

/// The `set` that the words of a line spell, with the data that follows
/// the line, which ends at `next`.
pub open spec fn scan_set(buf: Seq<u8>, words: Seq<Seq<u8>>, next: int) -> RequestView
    recommends
        words.len() >= 5,
{
    match spec_parse_u32(words[2]) {
        None => RequestView::Bad { error: MemcachedErrorView::InvalidFlags(words[2]), next },
        Some(flags) => match spec_parse_u32(words[3]) {
            None => RequestView::Bad { error: MemcachedErrorView::InvalidExptime(words[3]), next },
            Some(exptime) => match spec_parse_usize(words[4]) {
                None => RequestView::Bad {
                    error: MemcachedErrorView::InvalidBytes(words[4]),
                    next,
                },
                Some(bytes) => {
                    let end = next + bytes;
                    if end + 2 > buf.len() {
                        RequestView::More
                    } else if buf[end] != CR || buf[end + 1] != LF {
                        RequestView::Bad { error: MemcachedErrorView::ExpectedCrlf, next: end + 2 }
                    } else {
                        RequestView::Done {
                            command: MemcachedCommandView::SetKey(
                                words[1],
                                flags,
                                exptime,
                                buf.subrange(next, end),
                                wants_no_reply(words, 5),
                            ),
                            next: end + 2,
                        }
                    }
                },
            },
        },
    }
}

/// The request that stands at the start of `buf`. The name of the command
/// is told without regard to case.
pub open spec fn scan_request(buf: Seq<u8>) -> RequestView {
    let eol = find_crlf(buf, 0);
    if eol >= buf.len() {
        RequestView::More
    } else {
        let line = buf.subrange(0, eol);
        let next = eol + 2;
        if !valid_utf8(line) {
            RequestView::Bad { error: MemcachedErrorView::InvalidUtf8, next }
        } else {
            let words = spec_words(line);
            if words.len() == 0 {
                RequestView::Bad { error: MemcachedErrorView::EmptyCommand, next }
            } else {
                let name = spec_lowercase(words[0]);
                if name == "get".spec_bytes() && words.len() >= 2 {
                    RequestView::Done { command: MemcachedCommandView::Get(words[1]), next }
                } else if name == "set".spec_bytes() && words.len() >= 5 {
                    scan_set(buf, words, next)
                } else if name == "delete".spec_bytes() && words.len() >= 2 {
                    RequestView::Done {
                        command: MemcachedCommandView::Delete(words[1], wants_no_reply(words, 2)),
                        next,
                    }
                } else if name == "stats".spec_bytes() {
                    RequestView::Done { command: MemcachedCommandView::Stats, next }
                } else if name == "version".spec_bytes() {
                    RequestView::Done { command: MemcachedCommandView::Version, next }
                } else {
                    RequestView::Bad { error: MemcachedErrorView::UnknownCommand(words[0]), next }
                }
            }
        }
    }
}

/// Read the `set` that the words of a line spell, with the data that
/// follows the line.
fn parse_set(buf: &[u8], words: &Vec<Vec<u8>>, next: usize) -> (request: Request)
    requires
        words@.len() >= 5,
        next <= buf@.len(),
    ensures
        request@ == scan_set(buf@, words@.map_values(|w: Vec<u8>| w@), next as int),
{
    let ghost seen = words@.map_values(|w: Vec<u8>| w@);
    let flags = match parse_u32(words[2].as_slice()) {
        Some(flags) => flags,
        None => {
            return Request::Bad {
                error: MemcachedError::InvalidFlags(slice_to_vec(words[2].as_slice())),
                next,
            };
        },
    };
    let exptime = match parse_u32(words[3].as_slice()) {
        Some(exptime) => exptime,
        None => {
            return Request::Bad {
                error: MemcachedError::InvalidExptime(slice_to_vec(words[3].as_slice())),
                next,
            };
        },
    };
    let bytes = match parse_usize(words[4].as_slice()) {
        Some(bytes) => bytes,
        None => {
            return Request::Bad {
                error: MemcachedError::InvalidBytes(slice_to_vec(words[4].as_slice())),
                next,
            };
        },
    };
    let noreply = words.len() >= 6 && bytes_eq(words[5].as_slice(), "noreply".as_bytes());
    let room = buf.len() - next;
    if bytes > room || room - bytes < 2 {
        return Request::More;
    }
    let end = next + bytes;
    if buf[end] != CR || buf[end + 1] != LF {
        return Request::Bad { error: MemcachedError::ExpectedCrlf, next: end + 2 };
    }
    Request::Done {
        command: MemcachedCommand::SetKey(
            slice_to_vec(words[1].as_slice()),
            flags,
            exptime,
            slice_to_vec(slice_subrange(buf, next, end)),
            noreply,
        ),
        next: end + 2,
    }
}

/// Read the request that stands at the start of `buf`: the command and the
/// number of bytes it took, an error and the number of bytes read up to it,
/// or the answer that the buffer ends before the request does.
pub fn parse_command(buf: &[u8]) -> (request: Request)
    ensures
        request@ == scan_request(buf@),
        request matches Request::Done { next, .. } ==> 0 < next <= buf@.len(),
        request matches Request::Bad { next, .. } ==> 0 < next <= buf@.len(),
{
    let len = buf.len();
    let mut eol: usize = 0;
    while len - eol > 1 && !(buf[eol] == CR && buf[eol + 1] == LF)
        invariant
            eol <= len,
            len == buf@.len(),
            find_crlf(buf@, 0) == find_crlf(buf@, eol as int),
        decreases len - eol,
    {
        eol = eol + 1;
    }
    if len - eol <= 1 {
        assert(find_crlf(buf@, eol as int) == len);
        return Request::More;
    }
    assert(find_crlf(buf@, 0) == eol);
    let line = slice_subrange(buf, 0, eol);
    let next = eol + 2;
    if !is_utf8(line) {
        return Request::Bad { error: MemcachedError::InvalidUtf8, next };
    }
    let words = split_words(line);
    let ghost seen = words@.map_values(|w: Vec<u8>| w@);
    if words.len() == 0 {
        return Request::Bad { error: MemcachedError::EmptyCommand, next };
    }
    assert(seen[0] == words@[0]@);
    let name = lowercase(words[0].as_slice());
    if bytes_eq(name.as_slice(), "get".as_bytes()) && words.len() >= 2 {
        assert(seen[1] == words@[1]@);
        Request::Done { command: MemcachedCommand::Get(slice_to_vec(words[1].as_slice())), next }
    } else if bytes_eq(name.as_slice(), "set".as_bytes()) && words.len() >= 5 {
        parse_set(buf, &words, next)
    } else if bytes_eq(name.as_slice(), "delete".as_bytes()) && words.len() >= 2 {
        assert(seen[1] == words@[1]@);
        let noreply = words.len() >= 3 && bytes_eq(words[2].as_slice(), "noreply".as_bytes());
        Request::Done {
            command: MemcachedCommand::Delete(slice_to_vec(words[1].as_slice()), noreply),
            next,
        }
    } else if bytes_eq(name.as_slice(), "stats".as_bytes()) {
        Request::Done { command: MemcachedCommand::Stats, next }
    } else if bytes_eq(name.as_slice(), "version".as_bytes()) {
        Request::Done { command: MemcachedCommand::Version, next }
    } else {
        Request::Bad {
            error: MemcachedError::UnknownCommand(slice_to_vec(words[0].as_slice())),
            next,
        }
    }
}

/// A refusal in words.
pub open spec fn error_message(e: MemcachedErrorView) -> Seq<u8> {
    match e {
        MemcachedErrorView::InvalidUtf8 => "Invalid UTF-8 in command".spec_bytes(),
        MemcachedErrorView::EmptyCommand => "Empty command".spec_bytes(),
        MemcachedErrorView::InvalidFlags(w) => "Invalid flags: ".spec_bytes() + w,
        MemcachedErrorView::InvalidExptime(w) => "Invalid exptime: ".spec_bytes() + w,
        MemcachedErrorView::InvalidBytes(w) => "Invalid bytes: ".spec_bytes() + w,
        MemcachedErrorView::ExpectedCrlf => "Expected CRLF after data".spec_bytes(),
        MemcachedErrorView::UnknownCommand(w) => "Unknown command: ".spec_bytes() + w,
    }
}

/// The reply to a request that was refused: `ERROR <message>\r\n`.
pub open spec fn refusal_bytes(e: MemcachedErrorView) -> Seq<u8> {
    "ERROR ".spec_bytes() + error_message(e) + crlf()
}

impl MemcachedError {
    /// The refusal in words.
    pub fn message(&self) -> (text: Vec<u8>)
        ensures
            text@ == error_message(self@),
    {
        let mut text: Vec<u8> = Vec::new();
        match self {
            MemcachedError::InvalidUtf8 => {
                text.extend_from_slice("Invalid UTF-8 in command".as_bytes());
            },
            MemcachedError::EmptyCommand => {
                text.extend_from_slice("Empty command".as_bytes());
            },
            MemcachedError::InvalidFlags(w) => {
                text.extend_from_slice("Invalid flags: ".as_bytes());
                text.extend_from_slice(w.as_slice());
            },
            MemcachedError::InvalidExptime(w) => {
                text.extend_from_slice("Invalid exptime: ".as_bytes());
                text.extend_from_slice(w.as_slice());
            },
            MemcachedError::InvalidBytes(w) => {
                text.extend_from_slice("Invalid bytes: ".as_bytes());
                text.extend_from_slice(w.as_slice());
            },
            MemcachedError::ExpectedCrlf => {
                text.extend_from_slice("Expected CRLF after data".as_bytes());
            },
            MemcachedError::UnknownCommand(w) => {
                text.extend_from_slice("Unknown command: ".as_bytes());
                text.extend_from_slice(w.as_slice());
            },
        }
        assert(text@ =~= error_message(self@));
        text
    }

    /// The reply to a request that was refused with this error.
    pub fn reply(&self) -> (reply: Vec<u8>)
        ensures
            reply@ == refusal_bytes(self@),
    {
        let mut reply: Vec<u8> = Vec::new();
        reply.extend_from_slice("ERROR ".as_bytes());
        let message = self.message();
        reply.extend_from_slice(message.as_slice());
        reply.push(CR);
        reply.push(LF);
        assert(reply@ =~= refusal_bytes(self@));
        reply
    }
}

/// The reply to a `get`: the value with its key and length, then `END`; or
/// `END` alone where nothing was found.
pub open spec fn value_bytes(key: Seq<u8>, found: Option<Seq<u8>>) -> Seq<u8> {
    match found {
        Some(value) => "VALUE ".spec_bytes() + key + " 0 ".spec_bytes() + decimal(value.len())
            + crlf() + value + crlf() + "END\r\n".spec_bytes(),
        None => "END\r\n".spec_bytes(),
    }
}

/// The reply to a failure that the state reports in words.
pub open spec fn server_error_bytes(words: Seq<char>) -> Seq<u8> {
    "SERVER_ERROR ".spec_bytes() + encode_utf8(words) + crlf()
}

/// `reply`, or nothing where no reply is wanted.
pub open spec fn unless_muted(noreply: bool, reply: Seq<u8>) -> Seq<u8> {
    if noreply {
        Seq::empty()
    } else {
        reply
    }
}

/// The reply to a `set` for what the log said of its record.
pub open spec fn stored_bytes(noreply: bool, logged: Result<u64, AofError>) -> Seq<u8> {
    unless_muted(
        noreply,
        match logged {
            Ok(_) => "STORED\r\n".spec_bytes(),
            Err(e) => server_error_bytes(write_failure(e)),
        },
    )
}

/// The reply to a `delete` for what the table held and what the log said
/// of the record.
pub open spec fn deleted_bytes(noreply: bool, existed: bool, logged: Result<u64, AofError>) -> Seq<
    u8,
> {
    unless_muted(
        noreply,
        match logged {
            Ok(_) => if existed {
                "DELETED\r\n".spec_bytes()
            } else {
                "NOT_FOUND\r\n".spec_bytes()
            },
            Err(e) => server_error_bytes(delete_failure(e)),
        },
    )
}

/// The reply to `stats`.
pub open spec fn stats_bytes(
    pid: u32,
    uptime_secs: u64,
    reads: u64,
    writes: u64,
    deletes: u64,
    read_latency: u64,
    write_latency: u64,
) -> Seq<u8> {
    "STAT pid ".spec_bytes() + decimal(pid as nat) + "\r\nSTAT uptime ".spec_bytes() + decimal(
        uptime_secs as nat,
    ) + "\r\nSTAT version 0.1.0\r\nSTAT cmd_get ".spec_bytes() + decimal(reads as nat)
        + "\r\nSTAT cmd_set ".spec_bytes() + decimal(writes as nat)
        + "\r\nSTAT cmd_delete ".spec_bytes() + decimal(deletes as nat)
        + "\r\nSTAT read_latency_ns ".spec_bytes() + decimal(read_latency as nat)
        + "\r\nSTAT write_latency_ns ".spec_bytes() + decimal(write_latency as nat)
        + "\r\nEND\r\n".spec_bytes()
}

/// The time to live in seconds that an expiry asks for: none for zero.
pub open spec fn exptime_secs(exptime: u32) -> Option<u64> {
    if exptime > 0 {
        Some(exptime as u64)
    } else {
        None
    }
}

/// The reply to a `get`.
pub fn value_reply(key: &[u8], found: Option<&[u8]>) -> (reply: Vec<u8>)
    ensures
        reply@ == value_bytes(
            key@,
            match found {
                Some(v) => Some(v@),
                None => None,
            },
        ),
{
    let mut reply: Vec<u8> = Vec::new();
    match found {
        Some(value) => {
            reply.extend_from_slice("VALUE ".as_bytes());
            reply.extend_from_slice(key);
            reply.extend_from_slice(" 0 ".as_bytes());
            push_decimal(&mut reply, value.len() as u64);
            reply.push(CR);
            reply.push(LF);
            reply.extend_from_slice(value);
            reply.push(CR);
            reply.push(LF);
            reply.extend_from_slice("END\r\n".as_bytes());
            assert(reply@ =~= value_bytes(key@, Some(value@)));
        },
        None => {
            reply.extend_from_slice("END\r\n".as_bytes());
        },
    }
    reply
}

/// The reply to a failure that is reported in words:
/// `SERVER_ERROR <words>\r\n`.
pub fn server_error(words: &String) -> (reply: Vec<u8>)
    ensures
        reply@ == server_error_bytes(words@),
{
    let mut reply: Vec<u8> = Vec::new();
    reply.extend_from_slice("SERVER_ERROR ".as_bytes());
    reply.extend_from_slice(words.as_str().as_bytes());
    reply.push(CR);
    reply.push(LF);
    assert(reply@ =~= server_error_bytes(words@));
    reply
}

/// The reply to `stats`.
pub fn stats_reply(
    pid: u32,
    uptime_secs: u64,
    reads: u64,
    writes: u64,
    deletes: u64,
    read_latency: u64,
    write_latency: u64,
) -> (reply: Vec<u8>)
    ensures
        reply@ == stats_bytes(
            pid,
            uptime_secs,
            reads,
            writes,
            deletes,
            read_latency,
            write_latency,
        ),
{
    let mut reply: Vec<u8> = Vec::new();
    reply.extend_from_slice("STAT pid ".as_bytes());
    push_decimal(&mut reply, pid as u64);
    reply.extend_from_slice("\r\nSTAT uptime ".as_bytes());
    push_decimal(&mut reply, uptime_secs);
    reply.extend_from_slice("\r\nSTAT version 0.1.0\r\nSTAT cmd_get ".as_bytes());
    push_decimal(&mut reply, reads);
    reply.extend_from_slice("\r\nSTAT cmd_set ".as_bytes());
    push_decimal(&mut reply, writes);
    reply.extend_from_slice("\r\nSTAT cmd_delete ".as_bytes());
    push_decimal(&mut reply, deletes);
    reply.extend_from_slice("\r\nSTAT read_latency_ns ".as_bytes());
    push_decimal(&mut reply, read_latency);
    reply.extend_from_slice("\r\nSTAT write_latency_ns ".as_bytes());
    push_decimal(&mut reply, write_latency);
    reply.extend_from_slice("\r\nEND\r\n".as_bytes());
    assert(reply@ =~= stats_bytes(
        pid,
        uptime_secs,
        reads,
        writes,
        deletes,
        read_latency,
        write_latency,
    ));
    reply
}

/// What a `get` of `key` does: the state counts a read, and the reply is
/// what a read at some instant sees.
pub open spec fn get_done(pre: StateView, post: StateView, key: Seq<u8>, reply: Seq<u8>) -> bool {
    &&& exists|now: u128| reply == value_bytes(key, #[trigger] lookup(pre.table, key, now))
    &&& post.table == pre.table
    &&& post.position == pre.position
    &&& post.pending == pre.pending
    &&& post.reads == bumped(pre.reads, 1)
}

/// What a `set` does: the table holds the data, to expire after the seconds
/// given from some instant on, whatever the log says; the reply tells what
/// the log said, unless none is wanted.
pub open spec fn set_done(
    pre: StateView,
    post: StateView,
    key: Seq<u8>,
    exptime: u32,
    data: Seq<u8>,
    noreply: bool,
    reply: Seq<u8>,
) -> bool {
    &&& exists|now: u128|
        post.table == pre.table.insert(
            key,
            EntryView {
                value: data,
                expires_at: #[trigger] expiry_after(now, secs_nanos(exptime_secs(exptime))),
            },
        )
    &&& reply == stored_bytes(noreply, append_result(pre.position, key.len(), data.len()))
    &&& post.writes == bumped(pre.writes, 1)
}

/// What a `delete` does: the key is gone from the table, whatever the log
/// says; the reply tells whether it was there, or what the log said,
/// unless none is wanted.
pub open spec fn delete_done(
    pre: StateView,
    post: StateView,
    key: Seq<u8>,
    noreply: bool,
    reply: Seq<u8>,
) -> bool {
    &&& post.table == pre.table.remove(key)
    &&& reply == deleted_bytes(
        noreply,
        pre.table.contains_key(key),
        append_result(pre.position, key.len(), 0),
    )
    &&& post.deletes == bumped(pre.deletes, 1)
}

/// What a `stats` does: nothing to the state; the reply holds the process
/// id given, the counters, and the whole seconds of some uptime.
pub open spec fn stats_done(pre: StateView, post: StateView, pid: u32, reply: Seq<u8>) -> bool {
    &&& post == pre
    &&& exists|secs: u64|
        reply == #[trigger] stats_bytes(
            pid,
            secs,
            pre.reads,
            pre.writes,
            pre.deletes,
            mean_latency(pre.read_latency_ns, pre.reads),
            mean_latency(pre.write_latency_ns, pre.writes),
        )
}

/// Carry out `get <key>`.
pub fn execute_get(state: &mut GlobalState, key: &[u8]) -> (reply: Vec<u8>)
    requires
        old(state).wf(),
    ensures
        final(state).wf(),
        final(state).spec_partition_count() == old(state).spec_partition_count(),
        get_done(old(state)@, final(state)@, key@, reply@),
{
    let found = state.get(key);
    let reply = match &found {
        Some(value) => value_reply(key, Some(value.as_slice())),
        None => value_reply(key, None),
    };
    proof {
        let now = choose|now: u128| read_is(found, #[trigger] lookup(old(state)@.table, key@, now));
        assert(reply@ == value_bytes(key@, lookup(old(state)@.table, key@, now)));
    }
    reply
}

/// Carry out a `set`.
pub fn execute_set(
    state: &mut GlobalState,
    key: &[u8],
    exptime: u32,
    data: Vec<u8>,
    noreply: bool,
) -> (reply: Vec<u8>)
    requires
        old(state).wf(),
    ensures
        final(state).wf(),
        final(state).spec_partition_count() == old(state).spec_partition_count(),
        set_done(old(state)@, final(state)@, key@, exptime, data@, noreply, reply@),
{
    let ttl = if exptime > 0 {
        Some(Duration::from_secs(exptime as u64))
    } else {
        None
    };
    let ghost held = data@;
    let done = state.set(key, data, ttl);
    let reply = if noreply {
        Vec::new()
    } else {
        match done {
            Ok(_) => slice_to_vec("STORED\r\n".as_bytes()),
            Err(words) => server_error(&words),
        }
    };
    proof {
        assert(ttl_nanos(ttl) == secs_nanos(exptime_secs(exptime)));
        let now = choose|now: u128|
            state@.table == old(state)@.table.insert(
                key@,
                EntryView { value: held, expires_at: #[trigger] expiry_after(now, ttl_nanos(ttl)) },
            );
        assert(state@.table == old(state)@.table.insert(
            key@,
            EntryView {
                value: held,
                expires_at: expiry_after(now, secs_nanos(exptime_secs(exptime))),
            },
        ));
    }
    reply
}

/// Carry out a `delete`.
pub fn execute_delete(state: &mut GlobalState, key: &[u8], noreply: bool) -> (reply: Vec<u8>)
    requires
        old(state).wf(),
    ensures
        final(state).wf(),
        final(state).spec_partition_count() == old(state).spec_partition_count(),
        delete_done(old(state)@, final(state)@, key@, noreply, reply@),
{
    let done = state.delete(key);
    if noreply {
        Vec::new()
    } else {
        match done {
            Ok(true) => slice_to_vec("DELETED\r\n".as_bytes()),
            Ok(false) => slice_to_vec("NOT_FOUND\r\n".as_bytes()),
            Err(words) => server_error(&words),
        }
    }
}

/// Carry out `stats` for the process `pid`.
pub fn execute_stats(state: &GlobalState, pid: u32) -> (reply: Vec<u8>)
    ensures
        stats_done(state@, state@, pid, reply@),
{
    let (uptime, reads, writes, deletes, read_latency, write_latency) = state.get_stats();
    let secs = uptime.as_secs();
    let reply = stats_reply(pid, secs, reads, writes, deletes, read_latency, write_latency);
    assert(reply@ == stats_bytes(
        pid,
        secs,
        state@.reads,
        state@.writes,
        state@.deletes,
        mean_latency(state@.read_latency_ns, state@.reads),
        mean_latency(state@.write_latency_ns, state@.writes),
    ));
    reply
}

/// What carrying out `command` does to the state, and the reply to it.
pub open spec fn executed(
    pre: StateView,
    post: StateView,
    command: MemcachedCommandView,
    pid: u32,
    reply: Seq<u8>,
) -> bool {
    match command {
        MemcachedCommandView::Get(key) => get_done(pre, post, key, reply),
        MemcachedCommandView::SetKey(key, flags, exptime, data, noreply) => set_done(
            pre,
            post,
            key,
            exptime,
            data,
            noreply,
            reply,
        ),
        MemcachedCommandView::Delete(key, noreply) => delete_done(pre, post, key, noreply, reply),
        MemcachedCommandView::Stats => stats_done(pre, post, pid, reply),
        MemcachedCommandView::Version => post == pre && reply == "VERSION 0.1.0\r\n".spec_bytes(),
    }
}

/// Carry out `command` on `state`, in the process `pid`, and return the
/// reply: nothing where the command wants none.
pub fn execute(state: &mut GlobalState, command: MemcachedCommand, pid: u32) -> (reply: Vec<u8>)
    requires
        old(state).wf(),
    ensures
        final(state).wf(),
        final(state).spec_partition_count() == old(state).spec_partition_count(),
        executed(old(state)@, final(state)@, command@, pid, reply@),
{
    match command {
        MemcachedCommand::Get(key) => execute_get(state, key.as_slice()),
        MemcachedCommand::SetKey(key, _, exptime, data, noreply) => execute_set(
            state,
            key.as_slice(),
            exptime,
            data,
            noreply,
        ),
        MemcachedCommand::Delete(key, noreply) => execute_delete(state, key.as_slice(), noreply),
        MemcachedCommand::Stats => execute_stats(state, pid),
        MemcachedCommand::Version => slice_to_vec("VERSION 0.1.0\r\n".as_bytes()),
    }
}

} // verus!
