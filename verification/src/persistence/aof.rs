//! The append-only log: a cursor over a flat run of records, the records
//! that wait to be written, and replay of what was written before.
//!
//! The log does no input or output. Appending builds the record and queues
//! its bytes; the host writes the queue at the end of the file and takes it
//! with `take_pending`, or gives it up with `abandon_pending` where the
//! write failed. On opening, the host hands the file's bytes to
//! `replay_existing_entries`, which applies them to a table.

use crate::persistence::record::{
    command_of, encode_record, header_at, record_bytes, size_error, AofError, CommandType,
    EntryHeader, CRC_SIZE, HEADER_SIZE, MAX_KEY_LEN, MAX_VALUE_LEN,
};
use crate::storage::memory::{clamp_count, expiry_after, Contents, EntryView, MemTable};
use crate::util::clock::{
    current_timestamp_ms, millis_of_nanos, spec_as_nanos, spec_millis, NANOS_PER_MILLI,
};
use crate::util::crc64::{calculate_crc, spec_crc};
use std::time::Duration;
use vstd::prelude::*;
use vstd::slice::{slice_subrange, slice_to_vec};

verus! {

/// What stands at a place in a log.
pub enum Framed {
    /// A record whose checksum holds: its header, key and value.
    Entry { header: EntryHeader, key: Seq<u8>, value: Seq<u8> },
    /// A record whose checksum does not hold: a write that was torn.
    Torn,
    /// No record: the size is smaller than a header (`Corrupted`), or the
    /// log ends before the record does (`UnexpectedEof`).
    Failed(AofError),
}

/// A record as read from a log.
pub enum Frame {
    /// A record whose checksum holds: its header, key and value.
    Entry { header: EntryHeader, key: Vec<u8>, value: Vec<u8> },
    /// A record whose checksum does not hold: a write that was torn.
    Torn,
    /// No record: the size is smaller than a header (`Corrupted`), or the
    /// log ends before the record does (`UnexpectedEof`).
    Failed(AofError),
}

impl View for Frame {
    type V = Framed;

    open spec fn view(&self) -> Framed {
        match *self {
            Frame::Entry { header, key, value } => Framed::Entry {
                header,
                key: key@,
                value: value@,
            },
            Frame::Torn => Framed::Torn,
            Frame::Failed(e) => Framed::Failed(e),
        }
    }
}

/// What stands at `cursor` in `bytes`. The header is read first, and its
/// size is held against the header's own length; then the key and the value
/// are read by the lengths that the header gives; then the checksum of all
/// that follows the checksum field is held against the field.
pub open spec fn frame_at(bytes: Seq<u8>, cursor: int) -> Framed {
    if cursor + HEADER_SIZE > bytes.len() {
        Framed::Failed(AofError::UnexpectedEof)
    } else {
        let header = header_at(bytes, cursor);
        let key_end = cursor + HEADER_SIZE + header.key_size;
        let end = key_end + header.value_size;
        if header.size < HEADER_SIZE {
            Framed::Failed(AofError::Corrupted)
        } else if end > bytes.len() {
            Framed::Failed(AofError::UnexpectedEof)
        } else if spec_crc(bytes.subrange(cursor + CRC_SIZE, end)) != header.crc {
            Framed::Torn
        } else {
            Framed::Entry {
                header,
                key: bytes.subrange(cursor + HEADER_SIZE, key_end),
                value: bytes.subrange(key_end, end),
            }
        }
    }
}

/// Read what stands at `cursor` in `bytes`.
pub fn read_frame(bytes: &[u8], cursor: usize) -> (frame: Frame)
    requires
        cursor <= bytes@.len(),
    ensures
        frame@ == frame_at(bytes@, cursor as int),
{
    let len = bytes.len();
    if len - cursor < HEADER_SIZE {
        return Frame::Failed(AofError::UnexpectedEof);
    }
    let header = EntryHeader::read(bytes, cursor);
    if header.size < HEADER_SIZE as u32 {
        return Frame::Failed(AofError::Corrupted);
    }
    let room: u64 = (len - cursor - HEADER_SIZE) as u64;
    let need: u64 = header.key_size as u64 + header.value_size as u64;
    if need > room {
        return Frame::Failed(AofError::UnexpectedEof);
    }
    let key_start: usize = cursor + HEADER_SIZE;
    let key_end: usize = key_start + header.key_size as usize;
    let end: usize = key_end + header.value_size as usize;
    let crc = calculate_crc(slice_subrange(bytes, cursor + CRC_SIZE, end));
    if crc != header.crc {
        return Frame::Torn;
    }
    Frame::Entry {
        header,
        key: slice_to_vec(slice_subrange(bytes, key_start, key_end)),
        value: slice_to_vec(slice_subrange(bytes, key_end, end)),
    }
}

/// One replayed record, as far as it bears on a table.
pub struct LogRecord {
    pub cmd: CommandType,
    pub key: Seq<u8>,
    pub value: Seq<u8>,
    pub ttl_ms: u64,
}

/// How a replay ended.
pub enum ReplayEnd {
    /// Every record up to the end of the log was applied.
    Complete,
    /// A record's checksum did not hold: replay stopped before it.
    Torn,
    /// Replay gave up with this error.
    Failed(AofError),
}

/// What a replay does: the records it applies, in order, and how it ends.
pub struct Replayed {
    pub applied: Seq<LogRecord>,
    pub end: ReplayEnd,
}

/// How far `position` is below `limit`.
pub open spec fn remaining(limit: int, position: int) -> nat {
    if position < limit {
        (limit - position) as nat
    } else {
        0
    }
}

/// The replay of `bytes` from `cursor` on, in a log that was `limit` bytes
/// long when it was opened. `position` is the sum of the sizes that the
/// records so far declared: replay goes on while it is below `limit`, and
/// reads each record where the one before it ended.
pub open spec fn replay_from(bytes: Seq<u8>, limit: int, cursor: int, position: int) -> Replayed
    decreases remaining(limit, position),
{
    if position >= limit {
        Replayed { applied: Seq::empty(), end: ReplayEnd::Complete }
    } else {
        match frame_at(bytes, cursor) {
            Framed::Failed(e) => Replayed { applied: Seq::empty(), end: ReplayEnd::Failed(e) },
            Framed::Torn => Replayed { applied: Seq::empty(), end: ReplayEnd::Torn },
            Framed::Entry { header, key, value } => match command_of(header.cmd_type) {
                None => Replayed {
                    applied: Seq::empty(),
                    end: ReplayEnd::Failed(AofError::UnknownCommand),
                },
                Some(cmd) => {
                    let rest = replay_from(
                        bytes,
                        limit,
                        cursor + HEADER_SIZE + key.len() + value.len(),
                        position + header.size,
                    );
                    Replayed {
                        applied: seq![LogRecord { cmd, key, value, ttl_ms: header.ttl_ms }]
                            + rest.applied,
                        end: rest.end,
                    }
                },
            },
        }
    }
}

/// A record whose checksum holds declares a size of at least a header.
pub proof fn lemma_entry_size(bytes: Seq<u8>, cursor: int)
    ensures
        match frame_at(bytes, cursor) {
            Framed::Entry { header, key, value } => header.size >= HEADER_SIZE && header
                == header_at(bytes, cursor),
            _ => true,
        },
{
}

/// A record whose checksum holds lies within the log, its key and value as
/// long as its header says.
pub proof fn lemma_entry_bounds(bytes: Seq<u8>, cursor: int)
    requires
        0 <= cursor,
    ensures
        match frame_at(bytes, cursor) {
            Framed::Entry { header, key, value } => {
                &&& key.len() == header.key_size
                &&& value.len() == header.value_size
                &&& cursor + HEADER_SIZE + key.len() + value.len() <= bytes.len()
            },
            _ => true,
        },
{
}

/// The replay of a whole log of `limit` bytes.
pub open spec fn replay(bytes: Seq<u8>, limit: int) -> Replayed {
    replay_from(bytes, limit, 0, 0)
}

/// The time to live that a record asks for, in nanoseconds: none where the
/// field is zero.
pub open spec fn record_ttl_nanos(ttl_ms: u64) -> Option<u128> {
    if ttl_ms > 0 {
        Some((ttl_ms * NANOS_PER_MILLI) as u128)
    } else {
        None
    }
}

/// The contents after `record` was applied at `now`. The time to live of a
/// set starts anew at `now`.
pub open spec fn apply_record(m: Contents, record: LogRecord, now: u128) -> Contents {
    match record.cmd {
        CommandType::SetKey => m.insert(
            record.key,
            EntryView {
                value: record.value,
                expires_at: expiry_after(now, record_ttl_nanos(record.ttl_ms)),
            },
        ),
        CommandType::DeleteKey => m.remove(record.key),
    }
}

/// The contents after `records` were applied in order, all at `now`.
pub open spec fn apply_records(m: Contents, records: Seq<LogRecord>, now: u128) -> Contents
    decreases records.len(),
{
    if records.len() == 0 {
        m
    } else {
        apply_records(apply_record(m, records[0], now), records.skip(1), now)
    }
}

/// What the caller of a replay is told: an error where replay gave up, and
/// success otherwise. A torn record ends replay without an error.
pub open spec fn replay_result(end: ReplayEnd) -> Result<(), AofError> {
    match end {
        ReplayEnd::Failed(e) => Err(e),
        _ => Ok(()),
    }
}

/// The time to live that goes into a record: the whole milliseconds of the
/// duration, cut to 64 bits, and zero where there is none.
pub open spec fn record_ttl_ms(ttl: Option<Duration>) -> u64 {
    match ttl {
        Some(d) => spec_millis(spec_as_nanos(d)),
        None => 0,
    }
}

/// The append-only log.
pub struct AppendOnlyFile {
    position: u64,
    replay_count: usize,
    pending: Vec<u8>,
}

impl AppendOnlyFile {
    /// The offset at which the next record starts.
    pub closed spec fn spec_position(&self) -> u64 {
        self.position
    }

    /// The number of records that replay has applied.
    pub closed spec fn spec_replay_count(&self) -> usize {
        self.replay_count
    }

    /// The bytes that were appended and not yet taken to be written.
    pub closed spec fn spec_pending(&self) -> Seq<u8> {
        self.pending@
    }

    /// A log over a file that is `len` bytes long: the next record starts at
    /// its end. Nothing was replayed and nothing waits to be written.
    pub fn new(len: u64) -> (log: AppendOnlyFile)
        ensures
            log.spec_position() == len,
            log.spec_replay_count() == 0,
            log.spec_pending() == Seq::<u8>::empty(),
    {
        AppendOnlyFile { position: len, replay_count: 0, pending: Vec::new() }
    }

    /// The number of records that replay has applied.
    pub fn replay_count(&self) -> (count: usize)
        ensures
            count == self.spec_replay_count(),
    {
        self.replay_count
    }

    /// The offset at which the next record starts.
    pub fn position(&self) -> (offset: u64)
        ensures
            offset == self.spec_position(),
    {
        self.position
    }

    /// Take the bytes that wait to be written. They belong at the end of
    /// the file, in this order.
    pub fn take_pending(&mut self) -> (bytes: Vec<u8>)
        ensures
            bytes@ == old(self).spec_pending(),
            final(self).spec_pending() == Seq::<u8>::empty(),
            final(self).spec_position() == old(self).spec_position(),
            final(self).spec_replay_count() == old(self).spec_replay_count(),
    {
        let mut bytes: Vec<u8> = Vec::new();
        std::mem::swap(&mut bytes, &mut self.pending);
        bytes
    }

    /// The bytes that wait to be written.
    pub fn pending(&self) -> (bytes: &Vec<u8>)
        ensures
            bytes@ == self.spec_pending(),
    {
        &self.pending
    }

    /// Give up the bytes that wait to be written, as after a write that
    /// failed: the next record starts where the first of them started. The
    /// bytes are returned.
    pub fn abandon_pending(&mut self) -> (bytes: Vec<u8>)
        ensures
            bytes@ == old(self).spec_pending(),
            final(self).spec_pending() == Seq::<u8>::empty(),
            final(self).spec_position() == rewound(
                old(self).spec_position(),
                old(self).spec_pending().len(),
            ),
            final(self).spec_replay_count() == old(self).spec_replay_count(),
    {
        let bytes = self.take_pending();
        let len = bytes.len() as u64;
        self.position = if self.position >= len {
            self.position - len
        } else {
            0
        };
        bytes
    }

    /// Append the record for `cmd`, stamped `timestamp`, and return the
    /// offset at which it starts. A key or value too long for its length
    /// field is refused, and so is a record that would end beyond the last
    /// offset; a refused append leaves the log as it was.
    pub fn append_record(
        &mut self,
        cmd: CommandType,
        timestamp: u64,
        key: &[u8],
        value: &[u8],
        ttl_ms: u64,
    ) -> (offset: Result<u64, AofError>)
        ensures
            offset == append_result(old(self).spec_position(), key@.len(), value@.len()),
            append_done(
                *old(self),
                *final(self),
                offset,
                record_bytes(cmd, timestamp, key@, value@, ttl_ms),
            ),
            offset is Ok ==> final(self).spec_position() == old(self).spec_position()
                + HEADER_SIZE + key@.len() + value@.len(),
    {
        let record = match encode_record(cmd, timestamp, key, value, ttl_ms) {
            Ok(bytes) => bytes,
            Err(e) => {
                return Err(e);
            },
        };
        let next = match self.position.checked_add(record.len() as u64) {
            Some(next) => next,
            None => {
                return Err(AofError::LogFull);
            },
        };
        self.pending.extend_from_slice(record.as_slice());
        let offset = self.position;
        self.position = next;
        assert(self.pending@ =~= old(self).pending@ + record@);
        Ok(offset)
    }

    /// `append_set` with the clock's reading given: the record is stamped
    /// `timestamp`.
    pub fn append_set_at(
        &mut self,
        key: &[u8],
        value: &[u8],
        ttl: Option<Duration>,
        timestamp: u64,
    ) -> (offset: Result<u64, AofError>)
        ensures
            offset == append_result(old(self).spec_position(), key@.len(), value@.len()),
            append_done(
                *old(self),
                *final(self),
                offset,
                record_bytes(CommandType::SetKey, timestamp, key@, value@, record_ttl_ms(ttl)),
            ),
            offset is Ok ==> final(self).spec_position() == old(self).spec_position()
                + HEADER_SIZE + key@.len() + value@.len(),
    {
        let ttl_ms: u64 = match ttl {
            Some(d) => millis_of_nanos(d.as_nanos()),
            None => 0,
        };
        self.append_record(CommandType::SetKey, timestamp, key, value, ttl_ms)
    }

    /// Append a set of `key` to `value`, to live for `ttl`, stamped with the
    /// wall clock's present reading. Returns the offset of the record.
    pub fn append_set(&mut self, key: &[u8], value: &[u8], ttl: Option<Duration>) -> (offset:
        Result<u64, AofError>)
        ensures
            offset == append_result(old(self).spec_position(), key@.len(), value@.len()),
            exists|timestamp: u64|
                append_done(
                    *old(self),
                    *final(self),
                    offset,
                    #[trigger] record_bytes(
                        CommandType::SetKey,
                        timestamp,
                        key@,
                        value@,
                        record_ttl_ms(ttl),
                    ),
                ),
            offset is Ok ==> final(self).spec_position() == old(self).spec_position()
                + HEADER_SIZE + key@.len() + value@.len(),
    {
        let timestamp = current_timestamp_ms();
        self.append_set_at(key, value, ttl, timestamp)
    }

    /// `append_delete` with the clock's reading given: the record is stamped
    /// `timestamp`.
    pub fn append_delete_at(&mut self, key: &[u8], timestamp: u64) -> (offset: Result<
        u64,
        AofError,
    >)
        ensures
            offset == append_result(old(self).spec_position(), key@.len(), 0),
            append_done(
                *old(self),
                *final(self),
                offset,
                record_bytes(CommandType::DeleteKey, timestamp, key@, Seq::empty(), 0),
            ),
            offset is Ok ==> final(self).spec_position() == old(self).spec_position()
                + HEADER_SIZE + key@.len(),
    {
        let value: Vec<u8> = Vec::new();
        self.append_record(CommandType::DeleteKey, timestamp, key, value.as_slice(), 0)
    }

    /// Append a delete of `key`, stamped with the wall clock's present
    /// reading. Returns the offset of the record.
    pub fn append_delete(&mut self, key: &[u8]) -> (offset: Result<u64, AofError>)
        ensures
            offset == append_result(old(self).spec_position(), key@.len(), 0),
            exists|timestamp: u64|
                append_done(
                    *old(self),
                    *final(self),
                    offset,
                    #[trigger] record_bytes(
                        CommandType::DeleteKey,
                        timestamp,
                        key@,
                        Seq::empty(),
                        0,
                    ),
                ),
            offset is Ok ==> final(self).spec_position() == old(self).spec_position()
                + HEADER_SIZE + key@.len(),
    {
        let timestamp = current_timestamp_ms();
        self.append_delete_at(key, timestamp)
    }

    /// Replay `contents`, the bytes of the file as it was opened, into
    /// `mem_table`, every set written as at `now`. Replay stops without an
    /// error at the first record whose checksum does not hold, and with an
    /// error where the log is cut short, a size is too small or a command is
    /// unknown; the records before that point are applied either way.
    pub fn replay_at(&mut self, contents: &[u8], mem_table: &mut MemTable, now: u128) -> (done:
        Result<(), AofError>)
        requires
            old(mem_table).wf(),
        ensures
            final(mem_table).wf(),
            final(mem_table).spec_partition_count() == old(mem_table).spec_partition_count(),
            final(mem_table)@ == apply_records(
                old(mem_table)@,
                replay(contents@, old(self).spec_position() as int).applied,
                now,
            ),
            done == replay_result(replay(contents@, old(self).spec_position() as int).end),
            final(self).spec_replay_count() == clamp_count(
                (old(self).spec_replay_count() + replay(
                    contents@,
                    old(self).spec_position() as int,
                ).applied.len()) as nat,
            ),
            final(self).spec_position() == old(self).spec_position(),
            final(self).spec_pending() == old(self).spec_pending(),
    {
        let limit: u64 = self.position;
        let len = contents.len();
        let ghost whole = replay(contents@, limit as int);
        let mut cursor: usize = 0;
        let mut position: u128 = 0;
        let ghost mut applied: nat = 0;
        let mut done: Result<(), AofError> = Ok(());
        let mut running: bool = true;
        while running && position < limit as u128
            invariant
                mem_table.wf(),
                mem_table.spec_partition_count() == old(mem_table).spec_partition_count(),
                limit == old(self).position,
                self.position == old(self).position,
                self.pending == old(self).pending,
                whole == replay(contents@, limit as int),
                cursor <= contents@.len(),
                contents@.len() <= usize::MAX,
                position <= limit + applied * 0x1_0000_0000,
                running ==> {
                    let rest = replay_from(contents@, limit as int, cursor as int, position as int);
                    &&& apply_records(old(mem_table)@, whole.applied, now) == apply_records(
                        mem_table@,
                        rest.applied,
                        now,
                    )
                    &&& whole.applied.len() == applied + rest.applied.len()
                    &&& whole.end == rest.end
                    &&& done == Ok::<(), AofError>(())
                },
                !running ==> {
                    &&& apply_records(old(mem_table)@, whole.applied, now) == mem_table@
                    &&& whole.applied.len() == applied
                    &&& done == replay_result(whole.end)
                },
                self.replay_count == clamp_count((old(self).replay_count + applied) as nat),
            decreases (if running { 1int } else { 0int }), remaining(limit as int, position as int),
        {
            let ghost rest = replay_from(contents@, limit as int, cursor as int, position as int);
            match read_frame(contents, cursor) {
                Frame::Failed(e) => {
                    proof {
                        assert(apply_records(mem_table@, rest.applied, now) == mem_table@);
                        assert(rest.end == ReplayEnd::Failed(e));
                    }
                    done = Err(e);
                    running = false;
                },
                Frame::Torn => {
                    proof {
                        assert(apply_records(mem_table@, rest.applied, now) == mem_table@);
                        assert(rest.end == ReplayEnd::Torn);
                    }
                    running = false;
                },
                Frame::Entry { header, key, value } => {
                    let ghost next = replay_from(
                        contents@,
                        limit as int,
                        cursor + HEADER_SIZE + key@.len() + value@.len(),
                        position + header.size,
                    );
                    match CommandType::from_tag(header.cmd_type) {
                        None => {
                            proof {
                                assert(apply_records(mem_table@, rest.applied, now) == mem_table@);
                                assert(rest.end == ReplayEnd::Failed(AofError::UnknownCommand));
                            }
                            done = Err(AofError::UnknownCommand);
                            running = false;
                        },
                        Some(cmd) => {
                            let ghost record = LogRecord {
                                cmd,
                                key: key@,
                                value: value@,
                                ttl_ms: header.ttl_ms,
                            };
                            proof {
                                assert(rest.applied == seq![record] + next.applied);
                                assert(rest.applied[0] == record);
                                assert(rest.applied.skip(1) =~= next.applied);
                            }
                            proof {
                                lemma_entry_size(contents@, cursor as int);
                                lemma_entry_bounds(contents@, cursor as int);
                            }
                            let key_len = key.len();
                            let value_len = value.len();
                            match cmd {
                                CommandType::SetKey => {
                                    let ttl_nanos: Option<u128> = if header.ttl_ms > 0 {
                                        Some(header.ttl_ms as u128 * NANOS_PER_MILLI)
                                    } else {
                                        None
                                    };
                                    let _ = mem_table.recover_set_at(
                                        key.as_slice(),
                                        value,
                                        ttl_nanos,
                                        now,
                                    );
                                },
                                CommandType::DeleteKey => {
                                    let _ = mem_table.recover_delete(key.as_slice());
                                },
                            }
                            self.replay_count = self.replay_count.saturating_add(1);
                            proof {
                                applied = applied + 1;
                            }
                            cursor = cursor + HEADER_SIZE + key_len + value_len;
                            position = position + header.size as u128;
                        },
                    }
                },
            }
        }
        proof {
            if running {
                let rest = replay_from(contents@, limit as int, cursor as int, position as int);
                assert(apply_records(mem_table@, rest.applied, now) == mem_table@);
                assert(rest.end == ReplayEnd::Complete);
            }
        }
        done
    }

    /// Replay `contents`, the bytes of the file as it was opened, into
    /// `mem_table`, every set written as at the table's present clock
    /// reading.
    pub fn replay_existing_entries(&mut self, contents: &[u8], mem_table: &mut MemTable) -> (done:
        Result<(), AofError>)
        requires
            old(mem_table).wf(),
        ensures
            final(mem_table).wf(),
            final(mem_table).spec_partition_count() == old(mem_table).spec_partition_count(),
            exists|now: u128|
                final(mem_table)@ == #[trigger] apply_records(
                    old(mem_table)@,
                    replay(contents@, old(self).spec_position() as int).applied,
                    now,
                ),
            done == replay_result(replay(contents@, old(self).spec_position() as int).end),
            final(self).spec_replay_count() == clamp_count(
                (old(self).spec_replay_count() + replay(
                    contents@,
                    old(self).spec_position() as int,
                ).applied.len()) as nat,
            ),
            final(self).spec_position() == old(self).spec_position(),
            final(self).spec_pending() == old(self).spec_pending(),
    {
        let now = mem_table.now();
        self.replay_at(contents, mem_table, now)
    }

    /// Open a log over a file that holds `contents`: the next record starts
    /// at the file's end, and what the file holds is replayed into
    /// `mem_table`. The log is returned with the outcome of the replay.
    pub fn open(contents: &[u8], mem_table: &mut MemTable) -> (opened: (
        AppendOnlyFile,
        Result<(), AofError>,
    ))
        requires
            old(mem_table).wf(),
        ensures
            final(mem_table).wf(),
            final(mem_table).spec_partition_count() == old(mem_table).spec_partition_count(),
            exists|now: u128|
                final(mem_table)@ == #[trigger] apply_records(
                    old(mem_table)@,
                    replay(contents@, contents@.len() as int).applied,
                    now,
                ),
            opened.1 == replay_result(replay(contents@, contents@.len() as int).end),
            opened.0.spec_replay_count() == clamp_count(
                replay(contents@, contents@.len() as int).applied.len(),
            ),
            opened.0.spec_position() == contents@.len(),
            opened.0.spec_pending() == Seq::<u8>::empty(),
    {
        let mut log = AppendOnlyFile::new(contents.len() as u64);
        let done = log.replay_existing_entries(contents, mem_table);
        (log, done)
    }
}

/// The offset `len` bytes before `position`, and the start of the log where
/// there are not so many.
pub open spec fn rewound(position: u64, len: nat) -> u64 {
    if position >= len {
        (position - len) as u64
    } else {
        0
    }
}

/// What an append does to a log: a record that was taken waits to be
/// written behind what waited before, and the next record starts behind
/// it; a record that was refused changes nothing. Nothing is replayed.
pub open spec fn append_done(
    pre: AppendOnlyFile,
    post: AppendOnlyFile,
    offset: Result<u64, AofError>,
    record: Seq<u8>,
) -> bool {
    &&& post.spec_replay_count() == pre.spec_replay_count()
    &&& match offset {
        Ok(at) => {
            &&& post.spec_position() == at + record.len()
            &&& post.spec_pending() == pre.spec_pending() + record
        },
        Err(_) => {
            &&& post.spec_position() == pre.spec_position()
            &&& post.spec_pending() == pre.spec_pending()
        },
    }
}

/// What an append of a key and a value of these lengths returns in a log
/// whose next record starts at `position`: the error with which it is
/// refused, or that offset.
pub open spec fn append_result(position: u64, key_len: nat, value_len: nat) -> Result<
    u64,
    AofError,
> {
    match size_error(key_len, value_len) {
        Some(e) => Err(e),
        None => if position + HEADER_SIZE + key_len + value_len > u64::MAX {
            Err(AofError::LogFull)
        } else {
            Ok(position)
        },
    }
}

/// A key and a value that fit their length fields are appended with
/// success wherever the log has room for the record, at the offset at which
/// the log stood.
pub proof fn lemma_fitting_append_succeeds(position: u64, key_len: nat, value_len: nat)
    requires
        key_len <= MAX_KEY_LEN,
        value_len <= MAX_VALUE_LEN,
        position + HEADER_SIZE + key_len + value_len <= u64::MAX,
    ensures
        append_result(position, key_len, value_len) == Ok::<u64, AofError>(position),
{
}

/// Records that do not set `key` leave it absent from a table in which it
/// was absent: a key that was never set is not found, and a delete of it
/// finds nothing.
pub proof fn lemma_never_set_stays_absent(
    m: Contents,
    records: Seq<LogRecord>,
    key: Seq<u8>,
    now: u128,
)
    requires
        !m.contains_key(key),
        forall|i: int|
            0 <= i < records.len() ==> !((#[trigger] records[i]).cmd == CommandType::SetKey
                && records[i].key == key),
    ensures
        !apply_records(m, records, now).contains_key(key),
    decreases records.len(),
{
    if records.len() > 0 {
        let rest = records.skip(1);
        assert forall|i: int| 0 <= i < rest.len() implies !((#[trigger] rest[i]).cmd
            == CommandType::SetKey && rest[i].key == key) by {
            assert(rest[i] == records[i + 1]);
        }
        assert(!(records[0].cmd == CommandType::SetKey && records[0].key == key));
        lemma_never_set_stays_absent(apply_record(m, records[0], now), rest, key, now);
    }
}

} // verus!
