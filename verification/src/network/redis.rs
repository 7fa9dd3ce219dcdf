//! The Redis protocol: requests read from a buffer of received bytes,
//! commands told from their parts, and replies as bytes.
//!
//! A request is an array of bulk strings: `*<count>\r\n`, then for each
//! part `$<length>\r\n<bytes>\r\n`. The host collects what it receives in a
//! buffer and asks `parse_command` what stands at its start: a command with
//! the number of bytes it took, an error with the number of bytes read up
//! to it, or the answer that more bytes are needed.

use crate::engine::state::{
    bumped, delete_failure, latency_sample, mean_latency, write_failure, GlobalState, StateView,
};
use crate::persistence::aof::append_result;
use crate::persistence::record::AofError;
use crate::storage::memory::{expiry_after, lookup, read_is, ttl_nanos, EntryView};
use crate::util::clock::NANOS_PER_SEC;
use crate::util::text::{
    bytes_eq, debug_text, decimal, is_utf8, latin1_utf8, lossy_text, parse_i64, parse_u64,
    push_decimal, push_latin1, push_signed_decimal, signed_decimal, spec_debug, spec_lossy,
    spec_parse_i64, spec_parse_u64, spec_upper, to_ascii_uppercase,
};
use std::time::Duration;
use vstd::prelude::*;
use vstd::slice::{slice_subrange, slice_to_vec};
use vstd::string::StringSliceAdditionalSpecFns;
use vstd::utf8::{encode_utf8, valid_utf8};

verus! {

/// Carriage return.
pub const CR: u8 = 13;

/// Line feed.
pub const LF: u8 = 10;

/// The marker of an array: `*`.
pub const ARRAY: u8 = 42;

/// The marker of a bulk string: `$`.
pub const BULK: u8 = 36;

/// The marker of a simple string: `+`.
pub const SIMPLE: u8 = 43;

/// The marker of an error: `-`.
pub const ERROR: u8 = 45;

/// The marker of an integer: `:`.
pub const INTEGER: u8 = 58;

/// The end of a line.
pub open spec fn crlf() -> Seq<u8> {
    seq![CR, LF]
}

/// A simple string reply: `+<text>\r\n`.
pub open spec fn simple_string_bytes(text: Seq<u8>) -> Seq<u8> {
    seq![SIMPLE] + text + crlf()
}

/// An error reply: `-<text>\r\n`.
pub open spec fn error_bytes(text: Seq<u8>) -> Seq<u8> {
    seq![ERROR] + text + crlf()
}

/// A bulk string reply: `$<length>\r\n<data>\r\n`, and `$-1\r\n` for none.
pub open spec fn bulk_string_bytes(data: Option<Seq<u8>>) -> Seq<u8> {
    match data {
        Some(bytes) => seq![BULK] + decimal(bytes.len()) + crlf() + bytes + crlf(),
        None => "$-1\r\n".spec_bytes(),
    }
}

/// An integer reply: `:<n>\r\n`.
pub open spec fn integer_bytes(n: int) -> Seq<u8> {
    seq![INTEGER] + signed_decimal(n) + crlf()
}

/// A simple string reply.
pub fn simple_string(text: &[u8]) -> (reply: Vec<u8>)
    ensures
        reply@ == simple_string_bytes(text@),
{
    let mut reply: Vec<u8> = Vec::new();
    reply.push(SIMPLE);
    reply.extend_from_slice(text);
    reply.push(CR);
    reply.push(LF);
    assert(reply@ =~= simple_string_bytes(text@));
    reply
}

/// An error reply.
pub fn error(text: &[u8]) -> (reply: Vec<u8>)
    ensures
        reply@ == error_bytes(text@),
{
    let mut reply: Vec<u8> = Vec::new();
    reply.push(ERROR);
    reply.extend_from_slice(text);
    reply.push(CR);
    reply.push(LF);
    assert(reply@ =~= error_bytes(text@));
    reply
}

/// A bulk string reply, or the null bulk string for no data.
pub fn bulk_string(data: Option<&[u8]>) -> (reply: Vec<u8>)
    ensures
        reply@ == bulk_string_bytes(
            match data {
                Some(bytes) => Some(bytes@),
                None => None,
            },
        ),
{
    let mut reply: Vec<u8> = Vec::new();
    match data {
        Some(bytes) => {
            reply.push(BULK);
            push_decimal(&mut reply, bytes.len() as u64);
            reply.push(CR);
            reply.push(LF);
            reply.extend_from_slice(bytes);
            reply.push(CR);
            reply.push(LF);
            assert(reply@ =~= bulk_string_bytes(Some(bytes@)));
        },
        None => {
            reply.extend_from_slice("$-1\r\n".as_bytes());
        },
    }
    reply
}

/// An integer reply.
pub fn integer(n: i64) -> (reply: Vec<u8>)
    ensures
        reply@ == integer_bytes(n as int),
{
    let mut reply: Vec<u8> = Vec::new();
    reply.push(INTEGER);
    push_signed_decimal(&mut reply, n);
    reply.push(CR);
    reply.push(LF);
    assert(reply@ =~= integer_bytes(n as int));
    reply
}


/// Why a request was refused.
pub enum RespError {
    /// The request starts with this byte, which is not the array marker.
    UnsupportedType(u8),
    /// A part of the array starts with this byte, which is not the bulk
    /// string marker.
    ExpectedBulk(u8),
    /// A carriage return is not followed by a line feed.
    ExpectedLf,
    /// A number is not UTF-8 text.
    InvalidUtf8,
    /// This text is not a number.
    InvalidInteger(Vec<u8>),
    /// A bulk string is not followed by the end of a line.
    ExpectedCrlf,
    /// The array has no part.
    EmptyCommand,
    /// The command of this name, in upper case, is not known, or not with
    /// this number of parts.
    UnsupportedCommand(Vec<u8>),
    /// The seconds after `EX` are not UTF-8 text.
    InvalidTtl,
}

/// `RespError` as plain values.
pub enum RespErrorView {
    UnsupportedType(u8),
    ExpectedBulk(u8),
    ExpectedLf,
    InvalidUtf8,
    InvalidInteger(Seq<u8>),
    ExpectedCrlf,
    EmptyCommand,
    UnsupportedCommand(Seq<u8>),
    InvalidTtl,
}

impl View for RespError {
    type V = RespErrorView;

    open spec fn view(&self) -> RespErrorView {
        match *self {
            RespError::UnsupportedType(b) => RespErrorView::UnsupportedType(b),
            RespError::ExpectedBulk(b) => RespErrorView::ExpectedBulk(b),
            RespError::ExpectedLf => RespErrorView::ExpectedLf,
            RespError::InvalidUtf8 => RespErrorView::InvalidUtf8,
            RespError::InvalidInteger(text) => RespErrorView::InvalidInteger(text@),
            RespError::ExpectedCrlf => RespErrorView::ExpectedCrlf,
            RespError::EmptyCommand => RespErrorView::EmptyCommand,
            RespError::UnsupportedCommand(name) => RespErrorView::UnsupportedCommand(name@),
            RespError::InvalidTtl => RespErrorView::InvalidTtl,
        }
    }
}

/// A command.
pub enum RedisCommand {
    /// `GET key`
    Get(Vec<u8>),
    /// `SET key value [EX seconds]`
    SetKey(Vec<u8>, Vec<u8>, Option<u64>),
    /// `DEL key`
    Del(Vec<u8>),
    /// `PING`
    Ping,
    /// `INFO`
    Info,
}

/// `RedisCommand` as plain values.
pub enum CommandView {
    Get(Seq<u8>),
    SetKey(Seq<u8>, Seq<u8>, Option<u64>),
    Del(Seq<u8>),
    Ping,
    Info,
}

impl View for RedisCommand {
    type V = CommandView;

    open spec fn view(&self) -> CommandView {
        match *self {
            RedisCommand::Get(key) => CommandView::Get(key@),
            RedisCommand::SetKey(key, value, secs) => CommandView::SetKey(key@, value@, secs),
            RedisCommand::Del(key) => CommandView::Del(key@),
            RedisCommand::Ping => CommandView::Ping,
            RedisCommand::Info => CommandView::Info,
        }
    }
}

/// What stands at a place in a buffer, as far as it was looked for.
pub enum Scanned<T> {
    /// This, and the next thing starts at `next`.
    Done { value: T, next: int },
    /// The buffer ends before it does.
    More,
    /// Nothing well formed: the bytes up to `next` were read to find that.
    Bad { error: RespErrorView, next: int },
}

/// What was read at a place in a buffer.
pub enum Scan<T> {
    /// This, and the next thing starts at `next`.
    Done { value: T, next: usize },
    /// The buffer ends before it does.
    More,
    /// Nothing well formed: the bytes up to `next` were read to find that.
    Bad { error: RespError, next: usize },
}

/// The parts of a request as plain values.
pub open spec fn parts_view(parts: Seq<Vec<u8>>) -> Seq<Seq<u8>> {
    parts.map_values(|p: Vec<u8>| p@)
}

/// Whether a number was read as the buffer spells it.
pub open spec fn integer_scan_is(scan: Scan<i64>, spelled: Scanned<i64>) -> bool {
    match scan {
        Scan::Done { value, next } => spelled == (Scanned::Done { value, next: next as int }),
        Scan::More => spelled is More,
        Scan::Bad { error, next } => spelled == (Scanned::<i64>::Bad {
            error: error@,
            next: next as int,
        }),
    }
}

/// Whether a bulk string was read as the buffer spells it.
pub open spec fn bulk_scan_is(scan: Scan<Vec<u8>>, spelled: Scanned<Seq<u8>>) -> bool {
    match scan {
        Scan::Done { value, next } => spelled == (Scanned::Done {
            value: value@,
            next: next as int,
        }),
        Scan::More => spelled is More,
        Scan::Bad { error, next } => spelled == (Scanned::<Seq<u8>>::Bad {
            error: error@,
            next: next as int,
        }),
    }
}

/// Whether the parts of a request were read as the buffer spells them.
pub open spec fn parts_scan_is(scan: Scan<Vec<Vec<u8>>>, spelled: Scanned<Seq<Seq<u8>>>) -> bool {
    match scan {
        Scan::Done { value, next } => spelled == (Scanned::Done {
            value: parts_view(value@),
            next: next as int,
        }),
        Scan::More => spelled is More,
        Scan::Bad { error, next } => spelled == (Scanned::<Seq<Seq<u8>>>::Bad {
            error: error@,
            next: next as int,
        }),
    }
}

/// Whether a command was read as the buffer spells it.
pub open spec fn command_scan_is(scan: Scan<RedisCommand>, spelled: Scanned<CommandView>) -> bool {
    match scan {
        Scan::Done { value, next } => spelled == (Scanned::Done {
            value: value@,
            next: next as int,
        }),
        Scan::More => spelled is More,
        Scan::Bad { error, next } => spelled == (Scanned::<CommandView>::Bad {
            error: error@,
            next: next as int,
        }),
    }
}

/// Where the first carriage return at or after `from` stands in `buf`, and
/// the length of `buf` where there is none.
pub open spec fn find_cr(buf: Seq<u8>, from: int) -> int
    decreases buf.len() - from,
{
    if from < 0 || from >= buf.len() {
        buf.len() as int
    } else if buf[from] == CR {
        from
    } else {
        find_cr(buf, from + 1)
    }
}

/// The number that stands at `at`: the text up to the next carriage return,
/// which a line feed must follow, read as a signed decimal number.
pub open spec fn scan_integer(buf: Seq<u8>, at: int) -> Scanned<i64> {
    let cr = find_cr(buf, at);
    if cr + 1 >= buf.len() {
        Scanned::More
    } else if buf[cr + 1] != LF {
        Scanned::Bad { error: RespErrorView::ExpectedLf, next: cr + 2 }
    } else {
        let text = buf.subrange(at, cr);
        if !valid_utf8(text) {
            Scanned::Bad { error: RespErrorView::InvalidUtf8, next: cr + 2 }
        } else {
            match spec_parse_i64(text) {
                Some(value) => Scanned::Done { value, next: cr + 2 },
                None => Scanned::Bad { error: RespErrorView::InvalidInteger(text), next: cr + 2 },
            }
        }
    }
}

/// The bulk string whose length stands at `at`: that many bytes after the
/// length's line, and the end of a line after them. A negative length
/// stands for an empty string with nothing after the length's line.
pub open spec fn scan_bulk(buf: Seq<u8>, at: int) -> Scanned<Seq<u8>> {
    match scan_integer(buf, at) {
        Scanned::More => Scanned::More,
        Scanned::Bad { error, next } => Scanned::Bad { error, next },
        Scanned::Done { value: length, next } => {
            if length < 0 {
                Scanned::Done { value: Seq::empty(), next }
            } else if next + length + 2 > buf.len() {
                Scanned::More
            } else if buf[next + length] != CR || buf[next + length + 1] != LF {
                Scanned::Bad { error: RespErrorView::ExpectedCrlf, next: next + length + 2 }
            } else {
                Scanned::Done {
                    value: buf.subrange(next, next + length),
                    next: next + length + 2,
                }
            }
        },
    }
}

/// The `count` parts that stand from `at` on, after the parts `seen`: each
/// is the bulk string marker and a bulk string.
pub open spec fn scan_parts(buf: Seq<u8>, at: int, count: int, seen: Seq<Seq<u8>>) -> Scanned<
    Seq<Seq<u8>>,
>
    decreases count,
{
    if count <= 0 {
        Scanned::Done { value: seen, next: at }
    } else if at >= buf.len() {
        Scanned::More
    } else if buf[at] != BULK {
        Scanned::Bad { error: RespErrorView::ExpectedBulk(buf[at]), next: at + 1 }
    } else {
        match scan_bulk(buf, at + 1) {
            Scanned::More => Scanned::More,
            Scanned::Bad { error, next } => Scanned::Bad { error, next },
            Scanned::Done { value, next } => scan_parts(buf, next, count - 1, seen.push(value)),
        }
    }
}

/// The parts of the request that stands at the start of `buf`: the array
/// marker, the number of parts, and the parts.
pub open spec fn scan_request(buf: Seq<u8>) -> Scanned<Seq<Seq<u8>>> {
    if buf.len() == 0 {
        Scanned::More
    } else if buf[0] != ARRAY {
        Scanned::Bad { error: RespErrorView::UnsupportedType(buf[0]), next: 1 }
    } else {
        match scan_integer(buf, 1) {
            Scanned::More => Scanned::More,
            Scanned::Bad { error, next } => Scanned::Bad { error, next },
            Scanned::Done { value: count, next } => scan_parts(
                buf,
                next,
                count as int,
                Seq::empty(),
            ),
        }
    }
}

/// The time to live in seconds that a `SET` of these parts asks for: the
/// number after `EX` in the fourth place, where there is one and it is a
/// number. Seconds that are not UTF-8 text are an error.
pub open spec fn spec_ttl_of(parts: Seq<Seq<u8>>) -> Result<Option<u64>, RespErrorView> {
    if parts.len() >= 5 && spec_upper(parts[3]) == "EX".spec_bytes() {
        if !valid_utf8(parts[4]) {
            Err(RespErrorView::InvalidTtl)
        } else {
            Ok(spec_parse_u64(parts[4]))
        }
    } else {
        Ok(None)
    }
}

/// The command that the parts of a request spell. The name is told
/// without regard to case.
pub open spec fn spec_interpret(parts: Seq<Seq<u8>>) -> Result<CommandView, RespErrorView> {
    if parts.len() == 0 {
        Err(RespErrorView::EmptyCommand)
    } else {
        let name = spec_upper(parts[0]);
        if name == "GET".spec_bytes() && parts.len() == 2 {
            Ok(CommandView::Get(parts[1]))
        } else if name == "SET".spec_bytes() && parts.len() >= 3 {
            match spec_ttl_of(parts) {
                Ok(secs) => Ok(CommandView::SetKey(parts[1], parts[2], secs)),
                Err(e) => Err(e),
            }
        } else if name == "DEL".spec_bytes() && parts.len() == 2 {
            Ok(CommandView::Del(parts[1]))
        } else if name == "PING".spec_bytes() {
            Ok(CommandView::Ping)
        } else if name == "INFO".spec_bytes() {
            Ok(CommandView::Info)
        } else {
            Err(RespErrorView::UnsupportedCommand(name))
        }
    }
}

/// The command that stands at the start of `buf`.
pub open spec fn scan_command(buf: Seq<u8>) -> Scanned<CommandView> {
    match scan_request(buf) {
        Scanned::More => Scanned::More,
        Scanned::Bad { error, next } => Scanned::Bad { error, next },
        Scanned::Done { value, next } => match spec_interpret(value) {
            Ok(command) => Scanned::Done { value: command, next },
            Err(error) => Scanned::Bad { error, next },
        },
    }
}

/// Read the number that stands at `at` in `buf`.
pub fn parse_integer(buf: &[u8], at: usize) -> (scan: Scan<i64>)
    requires
        at <= buf@.len(),
    ensures
        integer_scan_is(scan, scan_integer(buf@, at as int)),
        scan matches Scan::Done { next, .. } ==> at < next <= buf@.len(),
        scan matches Scan::Bad { next, .. } ==> at < next <= buf@.len(),
{
    let len = buf.len();
    let mut cr: usize = at;
    while cr < len && buf[cr] != CR
        invariant
            at <= cr <= len,
            len == buf@.len(),
            find_cr(buf@, at as int) == find_cr(buf@, cr as int),
        decreases len - cr,
    {
        cr = cr + 1;
    }
    assert(find_cr(buf@, at as int) == cr);
    if len - cr < 2 {
        return Scan::More;
    }
    if buf[cr + 1] != LF {
        return Scan::Bad { error: RespError::ExpectedLf, next: cr + 2 };
    }
    let text = slice_subrange(buf, at, cr);
    if !is_utf8(text) {
        return Scan::Bad { error: RespError::InvalidUtf8, next: cr + 2 };
    }
    match parse_i64(text) {
        Some(value) => Scan::Done { value, next: cr + 2 },
        None => Scan::Bad { error: RespError::InvalidInteger(slice_to_vec(text)), next: cr + 2 },
    }
}

/// Read the bulk string whose length stands at `at` in `buf`.
pub fn parse_bulk_string(buf: &[u8], at: usize) -> (scan: Scan<Vec<u8>>)
    requires
        at <= buf@.len(),
    ensures
        bulk_scan_is(scan, scan_bulk(buf@, at as int)),
        scan matches Scan::Done { next, .. } ==> at < next <= buf@.len(),
        scan matches Scan::Bad { next, .. } ==> at < next <= buf@.len(),
{
    match parse_integer(buf, at) {
        Scan::More => Scan::More,
        Scan::Bad { error, next } => Scan::Bad { error, next },
        Scan::Done { value: length, next } => {
            if length < 0 {
                return Scan::Done { value: Vec::new(), next };
            }
            let room: u64 = (buf.len() - next) as u64;
            if length as u64 > room || room - (length as u64) < 2 {
                return Scan::More;
            }
            let end: usize = next + length as usize;
            if buf[end] != CR || buf[end + 1] != LF {
                return Scan::Bad { error: RespError::ExpectedCrlf, next: end + 2 };
            }
            Scan::Done { value: slice_to_vec(slice_subrange(buf, next, end)), next: end + 2 }
        },
    }
}


/// Tell the time to live in seconds that a `SET` of these parts asks for.
fn ttl_of(parts: &Vec<Vec<u8>>) -> (ttl: Result<Option<u64>, RespError>)
    ensures
        match ttl {
            Ok(secs) => spec_ttl_of(parts_view(parts@)) == Ok::<Option<u64>, RespErrorView>(secs),
            Err(e) => spec_ttl_of(parts_view(parts@)) == Err::<Option<u64>, RespErrorView>(e@),
        },
{
    if parts.len() >= 5 {
        let option = to_ascii_uppercase(parts[3].as_slice());
        if bytes_eq(option.as_slice(), "EX".as_bytes()) {
            if !is_utf8(parts[4].as_slice()) {
                return Err(RespError::InvalidTtl);
            }
            return Ok(parse_u64(parts[4].as_slice()));
        }
    }
    Ok(None)
}

/// Tell the command that the parts of a request spell.
pub fn interpret(parts: &Vec<Vec<u8>>) -> (command: Result<RedisCommand, RespError>)
    ensures
        match command {
            Ok(cmd) => spec_interpret(parts_view(parts@)) == Ok::<CommandView, RespErrorView>(
                cmd@,
            ),
            Err(e) => spec_interpret(parts_view(parts@)) == Err::<CommandView, RespErrorView>(e@),
        },
{
    if parts.len() == 0 {
        return Err(RespError::EmptyCommand);
    }
    let name = to_ascii_uppercase(parts[0].as_slice());
    if bytes_eq(name.as_slice(), "GET".as_bytes()) && parts.len() == 2 {
        Ok(RedisCommand::Get(slice_to_vec(parts[1].as_slice())))
    } else if bytes_eq(name.as_slice(), "SET".as_bytes()) && parts.len() >= 3 {
        match ttl_of(parts) {
            Ok(secs) => Ok(
                RedisCommand::SetKey(
                    slice_to_vec(parts[1].as_slice()),
                    slice_to_vec(parts[2].as_slice()),
                    secs,
                ),
            ),
            Err(e) => Err(e),
        }
    } else if bytes_eq(name.as_slice(), "DEL".as_bytes()) && parts.len() == 2 {
        Ok(RedisCommand::Del(slice_to_vec(parts[1].as_slice())))
    } else if bytes_eq(name.as_slice(), "PING".as_bytes()) {
        Ok(RedisCommand::Ping)
    } else if bytes_eq(name.as_slice(), "INFO".as_bytes()) {
        Ok(RedisCommand::Info)
    } else {
        Err(RespError::UnsupportedCommand(name))
    }
}

/// Read the parts of the request that stands at the start of `buf`.
pub fn parse_request(buf: &[u8]) -> (scan: Scan<Vec<Vec<u8>>>)
    ensures
        parts_scan_is(scan, scan_request(buf@)),
        scan matches Scan::Done { next, .. } ==> 0 < next <= buf@.len(),
        scan matches Scan::Bad { next, .. } ==> 0 < next <= buf@.len(),
{
    if buf.len() == 0 {
        return Scan::More;
    }
    if buf[0] != ARRAY {
        return Scan::Bad { error: RespError::UnsupportedType(buf[0]), next: 1 };
    }
    let (count, start) = match parse_integer(buf, 1) {
        Scan::More => {
            return Scan::More;
        },
        Scan::Bad { error, next } => {
            return Scan::Bad { error, next };
        },
        Scan::Done { value, next } => (value, next),
    };
    let mut parts: Vec<Vec<u8>> = Vec::new();
    let mut at: usize = start;
    let mut left: i64 = count;
    assert(parts_view(parts@) =~= Seq::<Seq<u8>>::empty());
    while left > 0
        invariant
            0 < at <= buf@.len(),
            scan_request(buf@) == scan_parts(buf@, at as int, left as int, parts_view(parts@)),
        decreases left,
    {
        if at >= buf.len() {
            return Scan::More;
        }
        if buf[at] != BULK {
            return Scan::Bad { error: RespError::ExpectedBulk(buf[at]), next: at + 1 };
        }
        match parse_bulk_string(buf, at + 1) {
            Scan::More => {
                return Scan::More;
            },
            Scan::Bad { error, next } => {
                return Scan::Bad { error, next };
            },
            Scan::Done { value, next } => {
                let ghost before = parts_view(parts@);
                let ghost item = value@;
                parts.push(value);
                assert(parts_view(parts@) =~= before.push(item));
                at = next;
                left = left - 1;
            },
        }
    }
    Scan::Done { value: parts, next: at }
}

/// Read the command that stands at the start of `buf`: the command and the
/// number of bytes it took, an error and the number of bytes read up to it,
/// or the answer that the buffer ends before the request does.
pub fn parse_command(buf: &[u8]) -> (scan: Scan<RedisCommand>)
    ensures
        command_scan_is(scan, scan_command(buf@)),
        scan matches Scan::Done { next, .. } ==> 0 < next <= buf@.len(),
        scan matches Scan::Bad { next, .. } ==> 0 < next <= buf@.len(),
{
    match parse_request(buf) {
        Scan::More => Scan::More,
        Scan::Bad { error, next } => Scan::Bad { error, next },
        Scan::Done { value, next } => match interpret(&value) {
            Ok(command) => Scan::Done { value: command, next },
            Err(error) => Scan::Bad { error, next },
        },
    }
}


/// A refusal in words.
pub open spec fn error_message(e: RespErrorView) -> Seq<u8> {
    match e {
        RespErrorView::UnsupportedType(b) => "Unsupported RESP type: ".spec_bytes() + latin1_utf8(
            b,
        ),
        RespErrorView::ExpectedBulk(b) => "Expected bulk string in array, got: ".spec_bytes()
            + latin1_utf8(b),
        RespErrorView::ExpectedLf => "Expected LF after CR".spec_bytes(),
        RespErrorView::InvalidUtf8 => "Invalid UTF-8 in integer".spec_bytes(),
        RespErrorView::InvalidInteger(text) => "Invalid integer: ".spec_bytes() + text,
        RespErrorView::ExpectedCrlf => "Expected CRLF after bulk string".spec_bytes(),
        RespErrorView::EmptyCommand => "Empty command".spec_bytes(),
        RespErrorView::UnsupportedCommand(name) => "Unsupported command: ".spec_bytes()
            + encode_utf8(spec_debug(spec_lossy(name))),
        RespErrorView::InvalidTtl => "Invalid TTL value".spec_bytes(),
    }
}

/// The reply to a request that was refused: `-ERR <message>\r\n`.
pub open spec fn refusal_bytes(e: RespErrorView) -> Seq<u8> {
    error_bytes("ERR ".spec_bytes() + error_message(e))
}

impl RespError {
    /// The refusal in words.
    pub fn message(&self) -> (text: Vec<u8>)
        ensures
            text@ == error_message(self@),
    {
        let mut text: Vec<u8> = Vec::new();
        match self {
            RespError::UnsupportedType(b) => {
                text.extend_from_slice("Unsupported RESP type: ".as_bytes());
                push_latin1(&mut text, *b);
            },
            RespError::ExpectedBulk(b) => {
                text.extend_from_slice("Expected bulk string in array, got: ".as_bytes());
                push_latin1(&mut text, *b);
            },
            RespError::ExpectedLf => {
                text.extend_from_slice("Expected LF after CR".as_bytes());
            },
            RespError::InvalidUtf8 => {
                text.extend_from_slice("Invalid UTF-8 in integer".as_bytes());
            },
            RespError::InvalidInteger(number) => {
                text.extend_from_slice("Invalid integer: ".as_bytes());
                text.extend_from_slice(number.as_slice());
            },
            RespError::ExpectedCrlf => {
                text.extend_from_slice("Expected CRLF after bulk string".as_bytes());
            },
            RespError::EmptyCommand => {
                text.extend_from_slice("Empty command".as_bytes());
            },
            RespError::UnsupportedCommand(name) => {
                text.extend_from_slice("Unsupported command: ".as_bytes());
                let shown = lossy_text(name.as_slice());
                let quoted = debug_text(shown.as_str());
                text.extend_from_slice(quoted.as_str().as_bytes());
            },
            RespError::InvalidTtl => {
                text.extend_from_slice("Invalid TTL value".as_bytes());
            },
        }
        assert(text@ =~= error_message(self@));
        text
    }

    /// The reply to a request that was refused with this error.
    pub fn reply(&self) -> (reply: Vec<u8>)
        ensures
            reply@ == refusal_bytes(self@),
    {
        let mut text: Vec<u8> = Vec::new();
        text.extend_from_slice("ERR ".as_bytes());
        let message = self.message();
        text.extend_from_slice(message.as_slice());
        assert(text@ =~= "ERR ".spec_bytes() + error_message(self@));
        error(text.as_slice())
    }
}

/// The text of the reply to `INFO`.
pub open spec fn info_bytes(
    uptime_secs: u64,
    reads: u64,
    writes: u64,
    deletes: u64,
    read_latency: u64,
    write_latency: u64,
) -> Seq<u8> {
    "# Server\r\nworkingdb_version:0.1.0\r\nuptime_seconds:".spec_bytes() + decimal(
        uptime_secs as nat,
    ) + "\r\n# Stats\r\ntotal_reads:".spec_bytes() + decimal(reads as nat)
        + "\r\ntotal_writes:".spec_bytes() + decimal(writes as nat)
        + "\r\ntotal_deletes:".spec_bytes() + decimal(deletes as nat)
        + "\r\navg_read_latency_ns:".spec_bytes() + decimal(read_latency as nat)
        + "\r\navg_write_latency_ns:".spec_bytes() + decimal(write_latency as nat)
        + "\r\n".spec_bytes()
}

/// The text of the reply to `INFO`.
pub fn info_text(
    uptime_secs: u64,
    reads: u64,
    writes: u64,
    deletes: u64,
    read_latency: u64,
    write_latency: u64,
) -> (text: Vec<u8>)
    ensures
        text@ == info_bytes(uptime_secs, reads, writes, deletes, read_latency, write_latency),
{
    let mut text: Vec<u8> = Vec::new();
    text.extend_from_slice("# Server\r\nworkingdb_version:0.1.0\r\nuptime_seconds:".as_bytes());
    push_decimal(&mut text, uptime_secs);
    text.extend_from_slice("\r\n# Stats\r\ntotal_reads:".as_bytes());
    push_decimal(&mut text, reads);
    text.extend_from_slice("\r\ntotal_writes:".as_bytes());
    push_decimal(&mut text, writes);
    text.extend_from_slice("\r\ntotal_deletes:".as_bytes());
    push_decimal(&mut text, deletes);
    text.extend_from_slice("\r\navg_read_latency_ns:".as_bytes());
    push_decimal(&mut text, read_latency);
    text.extend_from_slice("\r\navg_write_latency_ns:".as_bytes());
    push_decimal(&mut text, write_latency);
    text.extend_from_slice("\r\n".as_bytes());
    assert(text@ =~= info_bytes(
        uptime_secs,
        reads,
        writes,
        deletes,
        read_latency,
        write_latency,
    ));
    text
}

/// The reply to a `SET` for what the log said of its record.
pub open spec fn set_reply_bytes(logged: Result<u64, AofError>) -> Seq<u8> {
    match logged {
        Ok(_) => simple_string_bytes("OK".spec_bytes()),
        Err(e) => error_bytes("ERR ".spec_bytes() + encode_utf8(write_failure(e))),
    }
}

/// The reply to a `DEL` for what the table held and what the log said of
/// the record.
pub open spec fn del_reply_bytes(existed: bool, logged: Result<u64, AofError>) -> Seq<u8> {
    match logged {
        Ok(_) => integer_bytes(
            if existed {
                1
            } else {
                0
            },
        ),
        Err(e) => error_bytes("ERR ".spec_bytes() + encode_utf8(delete_failure(e))),
    }
}

/// The time to live in nanoseconds of so many seconds.
pub open spec fn secs_nanos(secs: Option<u64>) -> Option<u128> {
    match secs {
        Some(s) => Some((s * NANOS_PER_SEC) as u128),
        None => None,
    }
}

/// The reply to a failure that is reported in words: `-ERR <words>\r\n`.
pub fn failure_reply(words: &String) -> (reply: Vec<u8>)
    ensures
        reply@ == error_bytes("ERR ".spec_bytes() + encode_utf8(words@)),
{
    let mut text: Vec<u8> = Vec::new();
    text.extend_from_slice("ERR ".as_bytes());
    text.extend_from_slice(words.as_str().as_bytes());
    assert(text@ =~= "ERR ".spec_bytes() + encode_utf8(words@));
    error(text.as_slice())
}

/// What a `GET` of `key` does: the state counts a read, and the reply is
/// what a read at some instant sees, as a bulk string.
pub open spec fn get_done(pre: StateView, post: StateView, key: Seq<u8>, reply: Seq<u8>) -> bool {
    &&& exists|now: u128| reply == bulk_string_bytes(#[trigger] lookup(pre.table, key, now))
    &&& post.table == pre.table
    &&& post.position == pre.position
    &&& post.pending == pre.pending
    &&& post.reads == bumped(pre.reads, 1)
}

/// What a `SET` does: the table holds the value, to expire after the
/// seconds given from some instant on, whatever the log says; the reply
/// tells what the log said.
pub open spec fn set_done(
    pre: StateView,
    post: StateView,
    key: Seq<u8>,
    value: Seq<u8>,
    secs: Option<u64>,
    reply: Seq<u8>,
) -> bool {
    &&& exists|now: u128|
        post.table == pre.table.insert(
            key,
            EntryView { value, expires_at: #[trigger] expiry_after(now, secs_nanos(secs)) },
        )
    &&& reply == set_reply_bytes(append_result(pre.position, key.len(), value.len()))
    &&& post.writes == bumped(pre.writes, 1)
}

/// What a `DEL` does: the key is gone from the table, whatever the log
/// says; the reply tells whether it was there, or what the log said.
pub open spec fn del_done(pre: StateView, post: StateView, key: Seq<u8>, reply: Seq<u8>) -> bool {
    &&& post.table == pre.table.remove(key)
    &&& reply == del_reply_bytes(
        pre.table.contains_key(key),
        append_result(pre.position, key.len(), 0),
    )
    &&& post.deletes == bumped(pre.deletes, 1)
}

/// What an `INFO` does: nothing to the state; the reply holds the counters
/// and the whole seconds of some uptime.
pub open spec fn info_done(pre: StateView, post: StateView, reply: Seq<u8>) -> bool {
    &&& post == pre
    &&& exists|secs: u64|
        reply == bulk_string_bytes(
            Some(
                #[trigger] info_bytes(
                    secs,
                    pre.reads,
                    pre.writes,
                    pre.deletes,
                    mean_latency(pre.read_latency_ns, pre.reads),
                    mean_latency(pre.write_latency_ns, pre.writes),
                ),
            ),
        )
}

/// Carry out `GET key`: the value as a bulk string, or the null bulk string.
pub fn execute_get(state: &mut GlobalState, key: &[u8]) -> (reply: Vec<u8>)
    requires
        old(state).wf(),
    ensures
        final(state).wf(),
        final(state).spec_partition_count() == old(state).spec_partition_count(),
        get_done(old(state)@, final(state)@, key@, reply@),
{
    let found = state.get(key);
    let reply = match &found {
        Some(value) => bulk_string(Some(value.as_slice())),
        None => bulk_string(None),
    };
    proof {
        let now = choose|now: u128| read_is(found, #[trigger] lookup(old(state)@.table, key@, now));
        assert(reply@ == bulk_string_bytes(lookup(old(state)@.table, key@, now)));
        let nanos = choose|nanos: u128|
            state@ == (StateView {
                reads: bumped(old(state)@.reads, 1),
                read_latency_ns: bumped(
                    old(state)@.read_latency_ns,
                    #[trigger] latency_sample(nanos),
                ),
                ..old(state)@
            });
    }
    reply
}

/// Carry out `SET key value [EX secs]`: `+OK`, or the failure in words.
pub fn execute_set(
    state: &mut GlobalState,
    key: &[u8],
    value: Vec<u8>,
    secs: Option<u64>,
) -> (reply: Vec<u8>)
    requires
        old(state).wf(),
    ensures
        final(state).wf(),
        final(state).spec_partition_count() == old(state).spec_partition_count(),
        set_done(old(state)@, final(state)@, key@, value@, secs, reply@),
{
    let ttl = match secs {
        Some(s) => Some(Duration::from_secs(s)),
        None => None,
    };
    let ghost held = value@;
    let reply = match state.set(key, value, ttl) {
        Ok(_) => simple_string("OK".as_bytes()),
        Err(words) => failure_reply(&words),
    };
    proof {
        assert(ttl_nanos(ttl) == secs_nanos(secs));
        let now = choose|now: u128|
            state@.table == old(state)@.table.insert(
                key@,
                EntryView { value: held, expires_at: #[trigger] expiry_after(now, ttl_nanos(ttl)) },
            );
        assert(state@.table == old(state)@.table.insert(
            key@,
            EntryView { value: held, expires_at: expiry_after(now, secs_nanos(secs)) },
        ));
    }
    reply
}

/// Carry out `DEL key`: `:1` where the key was there, `:0` where it was
/// not, or the failure in words.
pub fn execute_del(state: &mut GlobalState, key: &[u8]) -> (reply: Vec<u8>)
    requires
        old(state).wf(),
    ensures
        final(state).wf(),
        final(state).spec_partition_count() == old(state).spec_partition_count(),
        del_done(old(state)@, final(state)@, key@, reply@),
{
    match state.delete(key) {
        Ok(true) => integer(1),
        Ok(false) => integer(0),
        Err(words) => failure_reply(&words),
    }
}

/// Carry out `INFO`: the counters as a bulk string.
pub fn execute_info(state: &GlobalState) -> (reply: Vec<u8>)
    ensures
        info_done(state@, state@, reply@),
{
    let (uptime, reads, writes, deletes, read_latency, write_latency) = state.get_stats();
    let secs = uptime.as_secs();
    let text = info_text(secs, reads, writes, deletes, read_latency, write_latency);
    let reply = bulk_string(Some(text.as_slice()));
    assert(reply@ == bulk_string_bytes(
        Some(
            info_bytes(
                secs,
                state@.reads,
                state@.writes,
                state@.deletes,
                mean_latency(state@.read_latency_ns, state@.reads),
                mean_latency(state@.write_latency_ns, state@.writes),
            ),
        ),
    ));
    reply
}

/// What carrying out `command` does to the state, and the reply to it.
pub open spec fn executed(
    pre: StateView,
    post: StateView,
    command: CommandView,
    reply: Seq<u8>,
) -> bool {
    match command {
        CommandView::Get(key) => get_done(pre, post, key, reply),
        CommandView::SetKey(key, value, secs) => set_done(pre, post, key, value, secs, reply),
        CommandView::Del(key) => del_done(pre, post, key, reply),
        CommandView::Ping => post == pre && reply == simple_string_bytes("PONG".spec_bytes()),
        CommandView::Info => info_done(pre, post, reply),
    }
}

/// Carry out `command` on `state` and return the reply.
pub fn execute(state: &mut GlobalState, command: RedisCommand) -> (reply: Vec<u8>)
    requires
        old(state).wf(),
    ensures
        final(state).wf(),
        final(state).spec_partition_count() == old(state).spec_partition_count(),
        executed(old(state)@, final(state)@, command@, reply@),
{
    match command {
        RedisCommand::Get(key) => execute_get(state, key.as_slice()),
        RedisCommand::SetKey(key, value, secs) => execute_set(state, key.as_slice(), value, secs),
        RedisCommand::Del(key) => execute_del(state, key.as_slice()),
        RedisCommand::Ping => simple_string("PONG".as_bytes()),
        RedisCommand::Info => execute_info(state),
    }
}

} // verus!
