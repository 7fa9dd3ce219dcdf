//! The coordinating state: one table, one log, and the counters. Every
//! write goes to the table first and to the log second.
//!
//! The state does no input or output. A write queues its record in the
//! log; the host writes the queue out and takes it with `take_pending`, or
//! gives it up with `abandon_pending` where the write failed. The table
//! then holds what the log does not: nothing is rolled back.

use crate::persistence::aof::{append_result, record_ttl_ms, rewound, AppendOnlyFile};
use crate::persistence::record::{
    error_text, record_bytes, AofError, CommandType, HEADER_SIZE,
};
use crate::storage::gc::{counted, sample_millis, smoothed, GarbageCollector};
use crate::storage::memory::{
    clamp_count, expired_keys, expiry_after, lookup, read_is, swept, ttl_nanos, Contents,
    EntryView, MemTable,
};
use crate::util::clock::elapsed_nanos;
use std::time::{Duration, Instant};
use vstd::prelude::*;
use vstd::slice::slice_to_vec;
use vstd::string::StringExecFns;

verus! {

/// The counters of the state.
pub struct Statistics {
    /// When the state was made.
    pub start_time: Instant,
    /// Reads served.
    pub reads: u64,
    /// Writes attempted.
    pub writes: u64,
    /// Deletes attempted.
    pub deletes: u64,
    /// Time spent in writes, in nanoseconds.
    pub write_latency_ns: u64,
    /// Time spent in reads, in nanoseconds.
    pub read_latency_ns: u64,
}

/// The state as plain values.
pub struct StateView {
    /// What the table holds.
    pub table: Contents,
    /// The offset at which the log's next record starts.
    pub position: u64,
    /// The bytes that the log has queued for writing.
    pub pending: Seq<u8>,
    /// The number of records that the log replayed.
    pub replay_count: usize,
    pub reads: u64,
    pub writes: u64,
    pub deletes: u64,
    pub write_latency_ns: u64,
    pub read_latency_ns: u64,
}

/// A counter after `by` was added to it; it wraps at the top of `u64`.
pub open spec fn bumped(counter: u64, by: u64) -> u64 {
    ((counter + by) % 0x1_0000_0000_0000_0000) as u64
}

/// Nanoseconds as a latency sample: the low 64 bits.
pub open spec fn latency_sample(nanos: u128) -> u64 {
    (nanos % 0x1_0000_0000_0000_0000) as u64
}

/// The mean latency of `count` operations that took `total` nanoseconds
/// together, and zero where there were none.
pub open spec fn mean_latency(total: u64, count: u64) -> u64 {
    if count > 0 {
        total / count
    } else {
        0
    }
}

/// The message with which a write is refused when the log refuses its record.
pub open spec fn write_failure(e: AofError) -> Seq<char> {
    "AOF write failed: "@ + error_text(e)
}

/// The message with which a delete is refused when the log refuses its record.
pub open spec fn delete_failure(e: AofError) -> Seq<char> {
    "AOF delete failed: "@ + error_text(e)
}

/// What a write returns for what the log said of its record.
pub open spec fn write_outcome(done: Result<(), String>, logged: Result<u64, AofError>) -> bool {
    match logged {
        Ok(_) => done == Ok::<(), String>(()),
        Err(e) => done is Err && done->Err_0@ == write_failure(e),
    }
}

/// What a delete returns for what the table held and what the log said of
/// the record.
pub open spec fn delete_outcome(
    done: Result<bool, String>,
    existed: bool,
    logged: Result<u64, AofError>,
) -> bool {
    match logged {
        Ok(_) => done == Ok::<bool, String>(existed),
        Err(e) => done is Err && done->Err_0@ == delete_failure(e),
    }
}

/// The coordinating state.
pub struct GlobalState {
    mem_table: MemTable,
    aof: AppendOnlyFile,
    stats: Statistics,
}

impl View for GlobalState {
    type V = StateView;

    closed spec fn view(&self) -> StateView {
        StateView {
            table: self.mem_table@,
            position: self.aof.spec_position(),
            pending: self.aof.spec_pending(),
            replay_count: self.aof.spec_replay_count(),
            reads: self.stats.reads,
            writes: self.stats.writes,
            deletes: self.stats.deletes,
            write_latency_ns: self.stats.write_latency_ns,
            read_latency_ns: self.stats.read_latency_ns,
        }
    }
}

impl GlobalState {
    /// The table is well formed.
    pub closed spec fn wf(&self) -> bool {
        self.mem_table.wf()
    }

    /// The number of shards of the table.
    pub closed spec fn spec_partition_count(&self) -> nat {
        self.mem_table.spec_partition_count()
    }

    /// A state over `mem_table` and `aof`, with every counter at zero.
    pub fn new(mem_table: MemTable, aof: AppendOnlyFile) -> (state: GlobalState)
        requires
            mem_table.wf(),
        ensures
            state.wf(),
            state.spec_partition_count() == mem_table.spec_partition_count(),
            state@ == (StateView {
                table: mem_table@,
                position: aof.spec_position(),
                pending: aof.spec_pending(),
                replay_count: aof.spec_replay_count(),
                reads: 0,
                writes: 0,
                deletes: 0,
                write_latency_ns: 0,
                read_latency_ns: 0,
            }),
    {
        GlobalState {
            mem_table,
            aof,
            stats: Statistics {
                start_time: Instant::now(),
                reads: 0,
                writes: 0,
                deletes: 0,
                write_latency_ns: 0,
                read_latency_ns: 0,
            },
        }
    }

    /// Count one read that took `nanos` nanoseconds.
    pub fn record_read(&mut self, nanos: u128)
        requires
            old(self).wf(),
        ensures
            final(self).wf(),
            final(self).spec_partition_count() == old(self).spec_partition_count(),
            final(self)@ == (StateView {
                reads: bumped(old(self)@.reads, 1),
                read_latency_ns: bumped(old(self)@.read_latency_ns, latency_sample(nanos)),
                ..old(self)@
            }),
    {
        let sample: u64 = (nanos % 0x1_0000_0000_0000_0000) as u64;
        self.stats.reads = self.stats.reads.wrapping_add(1);
        self.stats.read_latency_ns = self.stats.read_latency_ns.wrapping_add(sample);
    }

    /// Count one write that took `nanos` nanoseconds.
    pub fn record_write(&mut self, nanos: u128)
        requires
            old(self).wf(),
        ensures
            final(self).wf(),
            final(self).spec_partition_count() == old(self).spec_partition_count(),
            final(self)@ == (StateView {
                writes: bumped(old(self)@.writes, 1),
                write_latency_ns: bumped(old(self)@.write_latency_ns, latency_sample(nanos)),
                ..old(self)@
            }),
    {
        let sample: u64 = (nanos % 0x1_0000_0000_0000_0000) as u64;
        self.stats.writes = self.stats.writes.wrapping_add(1);
        self.stats.write_latency_ns = self.stats.write_latency_ns.wrapping_add(sample);
    }

    /// Add `nanos` nanoseconds to the time spent in writes, without
    /// counting a write: the time that the host took to write a record out
    /// belongs to the write that queued it.
    pub fn add_write_latency(&mut self, nanos: u128)
        requires
            old(self).wf(),
        ensures
            final(self).wf(),
            final(self).spec_partition_count() == old(self).spec_partition_count(),
            final(self)@ == (StateView {
                write_latency_ns: bumped(old(self)@.write_latency_ns, latency_sample(nanos)),
                ..old(self)@
            }),
    {
        let sample: u64 = (nanos % 0x1_0000_0000_0000_0000) as u64;
        self.stats.write_latency_ns = self.stats.write_latency_ns.wrapping_add(sample);
    }

    /// Read the value under `key`, and count the read and the time it took.
    /// An expired entry reads as absent.
    pub fn get(&mut self, key: &[u8]) -> (found: Option<Vec<u8>>)
        requires
            old(self).wf(),
        ensures
            final(self).wf(),
            final(self).spec_partition_count() == old(self).spec_partition_count(),
            exists|now: u128| read_is(found, #[trigger] lookup(old(self)@.table, key@, now)),
            !old(self)@.table.contains_key(key@) ==> found is None,
            old(self)@.table.contains_key(key@) && old(self)@.table[key@].expires_at is None
                ==> read_is(found, Some(old(self)@.table[key@].value)),
            exists|nanos: u128|
                final(self)@ == (StateView {
                    reads: bumped(old(self)@.reads, 1),
                    read_latency_ns: bumped(
                        old(self)@.read_latency_ns,
                        #[trigger] latency_sample(nanos),
                    ),
                    ..old(self)@
                }),
    {
        let start = Instant::now();
        let now = self.mem_table.now();
        let found = self.mem_table.get_at(key, now);
        let nanos = elapsed_nanos(&start);
        self.record_read(nanos);
        assert(read_is(found, lookup(old(self)@.table, key@, now)));
        assert(final(self)@.read_latency_ns == bumped(
            old(self)@.read_latency_ns,
            latency_sample(nanos),
        ));
        found
    }

    /// Write `value` under `key`, to live for `ttl` where one is given: the
    /// table first, then the log. Where the log refuses the record the write
    /// fails, and the table holds the new value all the same. The write and
    /// the time it took are counted either way.
    pub fn set(&mut self, key: &[u8], value: Vec<u8>, ttl: Option<Duration>) -> (done: Result<
        (),
        String,
    >)
        requires
            old(self).wf(),
        ensures
            final(self).wf(),
            final(self).spec_partition_count() == old(self).spec_partition_count(),
            write_outcome(done, append_result(old(self)@.position, key@.len(), value@.len())),
            exists|now: u128|
                final(self)@.table == old(self)@.table.insert(
                    key@,
                    EntryView {
                        value: value@,
                        expires_at: #[trigger] expiry_after(now, ttl_nanos(ttl)),
                    },
                ),
            ttl is None ==> final(self)@.table == old(self)@.table.insert(
                key@,
                EntryView { value: value@, expires_at: None },
            ),
            done is Ok ==> final(self)@.position == old(self)@.position + HEADER_SIZE + key@.len()
                + value@.len() && exists|timestamp: u64|
                final(self)@.pending == old(self)@.pending + #[trigger] record_bytes(
                    CommandType::SetKey,
                    timestamp,
                    key@,
                    value@,
                    record_ttl_ms(ttl),
                ),
            done is Err ==> final(self)@.position == old(self)@.position && final(self)@.pending
                == old(self)@.pending,
            final(self)@.replay_count == old(self)@.replay_count,
            final(self)@.reads == old(self)@.reads,
            final(self)@.read_latency_ns == old(self)@.read_latency_ns,
            final(self)@.deletes == old(self)@.deletes,
            final(self)@.writes == bumped(old(self)@.writes, 1),
            exists|nanos: u128|
                final(self)@.write_latency_ns == bumped(
                    old(self)@.write_latency_ns,
                    #[trigger] latency_sample(nanos),
                ),
    {
        let start = Instant::now();
        let copy = slice_to_vec(value.as_slice());
        let done = match self.mem_table.set(key, copy, ttl) {
            Ok(_) => match self.aof.append_set(key, value.as_slice(), ttl) {
                Ok(_) => Ok(()),
                Err(e) => {
                    let mut text = "AOF write failed: ".to_string();
                    text.append(e.message().as_str());
                    Err(text)
                },
            },
            Err(e) => {
                let mut text = "Memory write failed: ".to_string();
                text.append(e.as_str());
                Err(text)
            },
        };
        let nanos = elapsed_nanos(&start);
        self.record_write(nanos);
        assert(final(self)@.write_latency_ns == bumped(
            old(self)@.write_latency_ns,
            latency_sample(nanos),
        ));
        done
    }

    /// Take the entry under `key` out: the table first, then the log. Where
    /// the log refuses the record the delete fails, and the entry is gone
    /// from the table all the same. The delete is counted either way.
    pub fn delete(&mut self, key: &[u8]) -> (done: Result<bool, String>)
        requires
            old(self).wf(),
        ensures
            final(self).wf(),
            final(self).spec_partition_count() == old(self).spec_partition_count(),
            delete_outcome(
                done,
                old(self)@.table.contains_key(key@),
                append_result(old(self)@.position, key@.len(), 0),
            ),
            final(self)@.table == old(self)@.table.remove(key@),
            done is Ok ==> final(self)@.position == old(self)@.position + HEADER_SIZE + key@.len()
                && exists|timestamp: u64|
                final(self)@.pending == old(self)@.pending + #[trigger] record_bytes(
                    CommandType::DeleteKey,
                    timestamp,
                    key@,
                    Seq::empty(),
                    0,
                ),
            done is Err ==> final(self)@.position == old(self)@.position && final(self)@.pending
                == old(self)@.pending,
            final(self)@.replay_count == old(self)@.replay_count,
            final(self)@.reads == old(self)@.reads,
            final(self)@.read_latency_ns == old(self)@.read_latency_ns,
            final(self)@.writes == old(self)@.writes,
            final(self)@.write_latency_ns == old(self)@.write_latency_ns,
            final(self)@.deletes == bumped(old(self)@.deletes, 1),
    {
        let done = match self.mem_table.delete(key) {
            Ok(existed) => match self.aof.append_delete(key) {
                Ok(_) => Ok(existed),
                Err(e) => {
                    let mut text = "AOF delete failed: ".to_string();
                    text.append(e.message().as_str());
                    Err(text)
                },
            },
            Err(e) => {
                let mut text = "Memory delete failed: ".to_string();
                text.append(e.as_str());
                Err(text)
            },
        };
        self.stats.deletes = self.stats.deletes.wrapping_add(1);
        done
    }

    /// The time since the state was made, the counts of reads, writes and
    /// deletes, and the mean latency of a read and of a write in
    /// nanoseconds, each zero where there was none.
    pub fn get_stats(&self) -> (stats: (Duration, u64, u64, u64, u64, u64))
        ensures
            stats.1 == self@.reads,
            stats.2 == self@.writes,
            stats.3 == self@.deletes,
            stats.4 == mean_latency(self@.read_latency_ns, self@.reads),
            stats.5 == mean_latency(self@.write_latency_ns, self@.writes),
    {
        let uptime = self.stats.start_time.elapsed();
        let reads = self.stats.reads;
        let writes = self.stats.writes;
        let deletes = self.stats.deletes;
        let avg_write_latency = if writes > 0 {
            self.stats.write_latency_ns / writes
        } else {
            0
        };
        let avg_read_latency = if reads > 0 {
            self.stats.read_latency_ns / reads
        } else {
            0
        };
        (uptime, reads, writes, deletes, avg_read_latency, avg_write_latency)
    }

    /// Run one sweep of the table by hand through `gc`, and return the
    /// number of entries removed. The log and the counters stay as they are.
    pub fn run_gc(&mut self, gc: &mut GarbageCollector) -> (collected: usize)
        requires
            old(self).wf(),
        ensures
            final(self).wf(),
            final(self).spec_partition_count() == old(self).spec_partition_count(),
            exists|now: u128|
                final(self)@ == (StateView {
                    table: #[trigger] swept(old(self)@.table, now),
                    ..old(self)@
                }) && collected == clamp_count(expired_keys(old(self)@.table, now).len()),
            final(gc).spec_stopped() == old(gc).spec_stopped(),
            final(gc).spec_stats().cycles == counted(old(gc).spec_stats().cycles, 1),
            final(gc).spec_stats().collected == counted(old(gc).spec_stats().collected, collected),
            final(gc).spec_stats().last_run is Some,
            final(gc).spec_stats().avg_duration_ms == old(gc).spec_stats().avg_duration_ms,
    {
        let ghost before = self@;
        let collected = gc.run_now(&mut self.mem_table);
        proof {
            let now = choose|now: u128|
                self.mem_table@ == #[trigger] swept(before.table, now) && collected
                    == clamp_count(expired_keys(before.table, now).len());
            assert(self@ == (StateView { table: swept(before.table, now), ..before }));
        }
        collected
    }

    /// One turn of the background sweep through `gc`: the table is swept
    /// once, and the time it took is folded into the smoothed duration.
    pub fn background_gc(&mut self, gc: &mut GarbageCollector) -> (collected: usize)
        requires
            old(self).wf(),
        ensures
            final(self).wf(),
            final(self).spec_partition_count() == old(self).spec_partition_count(),
            exists|now: u128|
                final(self)@ == (StateView {
                    table: #[trigger] swept(old(self)@.table, now),
                    ..old(self)@
                }) && collected == clamp_count(expired_keys(old(self)@.table, now).len()),
            final(gc).spec_stopped() == old(gc).spec_stopped(),
            final(gc).spec_stats().cycles == counted(old(gc).spec_stats().cycles, 1),
            final(gc).spec_stats().collected == counted(old(gc).spec_stats().collected, collected),
            final(gc).spec_stats().last_run is Some,
            exists|nanos: u128|
                final(gc).spec_stats().avg_duration_ms == smoothed(
                    old(gc).spec_stats().avg_duration_ms,
                    #[trigger] sample_millis(nanos),
                ),
    {
        let ghost before = self@;
        let collected = gc.background_cycle(&mut self.mem_table);
        proof {
            let now = choose|now: u128|
                self.mem_table@ == #[trigger] swept(before.table, now) && collected
                    == clamp_count(expired_keys(before.table, now).len());
            assert(self@ == (StateView { table: swept(before.table, now), ..before }));
        }
        collected
    }

    /// Take the bytes that the log has queued. They belong at the end of
    /// the file, in this order.
    pub fn take_pending(&mut self) -> (bytes: Vec<u8>)
        requires
            old(self).wf(),
        ensures
            final(self).wf(),
            final(self).spec_partition_count() == old(self).spec_partition_count(),
            bytes@ == old(self)@.pending,
            final(self)@ == (StateView { pending: Seq::empty(), ..old(self)@ }),
    {
        self.aof.take_pending()
    }

    /// The bytes that the log has queued.
    pub fn pending(&self) -> (bytes: &Vec<u8>)
        ensures
            bytes@ == self@.pending,
    {
        self.aof.pending()
    }

    /// Give up the bytes that the log has queued, as after a write that
    /// failed: the log's next record starts where the first of them
    /// started. The table and the counters stay as they are.
    pub fn abandon_pending(&mut self) -> (bytes: Vec<u8>)
        requires
            old(self).wf(),
        ensures
            final(self).wf(),
            final(self).spec_partition_count() == old(self).spec_partition_count(),
            bytes@ == old(self)@.pending,
            final(self)@ == (StateView {
                pending: Seq::empty(),
                position: rewound(old(self)@.position, old(self)@.pending.len()),
                ..old(self)@
            }),
    {
        self.aof.abandon_pending()
    }

    /// The number of records that the log replayed when it was opened.
    pub fn replay_count(&self) -> (count: usize)
        ensures
            count == self@.replay_count,
    {
        self.aof.replay_count()
    }

    /// The number of shards of the table.
    pub fn partition_count(&self) -> (count: usize)
        ensures
            count == self.spec_partition_count(),
    {
        self.mem_table.partition_count()
    }
}

} // verus!
