//! The periodic sweep of expired entries, and what it counts.
//!
//! The collector does not own the table: each cycle is handed the table it
//! is to sweep. The loop that sleeps between cycles belongs to the host; one
//! turn of it is `background_cycle`, and `is_stopped` is its condition.
//! `run_now` is a cycle by hand: it counts like a turn of the loop, but
//! leaves the smoothed duration alone.

use crate::storage::memory::{clamp_count, expired_keys, swept, MemTable};
use crate::util::clock::{elapsed_nanos, NANOS_PER_MILLI};
use std::time::Instant;
use vstd::prelude::*;

verus! {

/// What the collector has counted so far.
#[derive(Clone, Debug)]
pub struct GcStats {
    /// Cycles run.
    pub cycles: usize,
    /// Entries removed, over all cycles.
    pub collected: usize,
    /// When the last cycle started.
    pub last_run: Option<Instant>,
    /// Smoothed duration of a background cycle, in milliseconds.
    pub avg_duration_ms: usize,
}

impl Default for GcStats {
    fn default() -> (stats: GcStats)
        ensures
            stats.cycles == 0,
            stats.collected == 0,
            stats.last_run is None,
            stats.avg_duration_ms == 0,
    {
        GcStats { cycles: 0, collected: 0, last_run: None, avg_duration_ms: 0 }
    }
}

/// A copy of the counts at one moment.
#[derive(Clone, Debug)]
pub struct GcStatsSnapshot {
    pub cycles: usize,
    pub collected: usize,
    pub last_run: Option<Instant>,
    pub avg_duration_ms: usize,
}

/// A counter after `n` more were counted; it wraps at the top of `usize`.
pub open spec fn counted(counter: usize, n: usize) -> usize {
    if counter + n > usize::MAX {
        (counter + n - usize::MAX - 1) as usize
    } else {
        (counter + n) as usize
    }
}

/// The smoothed duration after a cycle that took `sample` milliseconds: the
/// first sample as it is, and after that nine parts of the old average to
/// one part of the sample.
pub open spec fn smoothed(avg: usize, sample: usize) -> usize {
    if avg == 0 {
        sample
    } else {
        ((avg * 9 + sample) / 10) as usize
    }
}

/// The whole milliseconds in `nanos` nanoseconds, held at the top of `usize`.
pub open spec fn sample_millis(nanos: u128) -> usize {
    if nanos / NANOS_PER_MILLI > usize::MAX {
        usize::MAX
    } else {
        (nanos / NANOS_PER_MILLI) as usize
    }
}

/// Sweeps a table of its expired entries and keeps count.
pub struct GarbageCollector {
    should_stop: usize,
    stats: GcStats,
}

impl GarbageCollector {
    /// The counts as they stand.
    pub closed spec fn spec_stats(&self) -> GcStats {
        self.stats
    }

    /// Whether `stop` was called.
    pub closed spec fn spec_stopped(&self) -> bool {
        self.should_stop != 0
    }

    /// A collector that has run no cycle and was not stopped.
    pub fn new() -> (gc: GarbageCollector)
        ensures
            !gc.spec_stopped(),
            gc.spec_stats().cycles == 0,
            gc.spec_stats().collected == 0,
            gc.spec_stats().last_run is None,
            gc.spec_stats().avg_duration_ms == 0,
    {
        GarbageCollector { should_stop: 0, stats: GcStats::default() }
    }

    /// Ask the background loop to end. It sees the request before its next
    /// cycle; the counts are untouched.
    pub fn stop(&mut self)
        ensures
            final(self).spec_stopped(),
            final(self).spec_stats() == old(self).spec_stats(),
    {
        self.should_stop = 1;
    }

    /// Whether `stop` was called: the background loop runs while it was not.
    pub fn is_stopped(&self) -> (stopped: bool)
        ensures
            stopped == self.spec_stopped(),
    {
        self.should_stop != 0
    }

    /// Fold one finished cycle into the counts: one more cycle, `collected`
    /// more entries, and `started` as the start of the last run.
    pub fn record_cycle(&mut self, collected: usize, started: Instant)
        ensures
            final(self).spec_stopped() == old(self).spec_stopped(),
            final(self).spec_stats().cycles == counted(old(self).spec_stats().cycles, 1),
            final(self).spec_stats().collected == counted(
                old(self).spec_stats().collected,
                collected,
            ),
            final(self).spec_stats().last_run == Some(started),
            final(self).spec_stats().avg_duration_ms == old(self).spec_stats().avg_duration_ms,
    {
        self.stats.cycles = self.stats.cycles.wrapping_add(1);
        self.stats.collected = self.stats.collected.wrapping_add(collected);
        self.stats.last_run = Some(started);
    }

    /// Fold the duration of one background cycle, `nanos` nanoseconds, into
    /// the smoothed duration.
    pub fn record_duration(&mut self, nanos: u128)
        ensures
            final(self).spec_stopped() == old(self).spec_stopped(),
            final(self).spec_stats().cycles == old(self).spec_stats().cycles,
            final(self).spec_stats().collected == old(self).spec_stats().collected,
            final(self).spec_stats().last_run == old(self).spec_stats().last_run,
            final(self).spec_stats().avg_duration_ms == smoothed(
                old(self).spec_stats().avg_duration_ms,
                sample_millis(nanos),
            ),
    {
        let whole: u128 = nanos / NANOS_PER_MILLI;
        let sample: usize = if whole > usize::MAX as u128 {
            usize::MAX
        } else {
            whole as usize
        };
        let avg: usize = self.stats.avg_duration_ms;
        if avg == 0 {
            self.stats.avg_duration_ms = sample;
        } else {
            let wide: u128 = (avg as u128 * 9 + sample as u128) / 10;
            self.stats.avg_duration_ms = wide as usize;
        }
    }

    /// Run one cycle now: sweep `mem_table` once, count the cycle and what
    /// it removed, and note when it started. Returns the number removed.
    pub fn run_now(&mut self, mem_table: &mut MemTable) -> (collected: usize)
        requires
            old(mem_table).wf(),
        ensures
            final(mem_table).wf(),
            final(mem_table).spec_partition_count() == old(mem_table).spec_partition_count(),
            exists|now: u128|
                final(mem_table)@ == #[trigger] swept(old(mem_table)@, now) && collected
                    == clamp_count(expired_keys(old(mem_table)@, now).len()),
            final(self).spec_stopped() == old(self).spec_stopped(),
            final(self).spec_stats().cycles == counted(old(self).spec_stats().cycles, 1),
            final(self).spec_stats().collected == counted(
                old(self).spec_stats().collected,
                collected,
            ),
            final(self).spec_stats().last_run is Some,
            final(self).spec_stats().avg_duration_ms == old(self).spec_stats().avg_duration_ms,
    {
        let start = Instant::now();
        let collected = mem_table.gc();
        self.record_cycle(collected, start);
        collected
    }

    /// One turn of the background loop: a cycle as `run_now` runs it, and
    /// the time the sweep took folded into the smoothed duration. Returns
    /// the number removed.
    pub fn background_cycle(&mut self, mem_table: &mut MemTable) -> (collected: usize)
        requires
            old(mem_table).wf(),
        ensures
            final(mem_table).wf(),
            final(mem_table).spec_partition_count() == old(mem_table).spec_partition_count(),
            exists|now: u128|
                final(mem_table)@ == #[trigger] swept(old(mem_table)@, now) && collected
                    == clamp_count(expired_keys(old(mem_table)@, now).len()),
            final(self).spec_stopped() == old(self).spec_stopped(),
            final(self).spec_stats().cycles == counted(old(self).spec_stats().cycles, 1),
            final(self).spec_stats().collected == counted(
                old(self).spec_stats().collected,
                collected,
            ),
            final(self).spec_stats().last_run is Some,
            exists|nanos: u128|
                final(self).spec_stats().avg_duration_ms == smoothed(
                    old(self).spec_stats().avg_duration_ms,
                    #[trigger] sample_millis(nanos),
                ),
    {
        let start = Instant::now();
        let collected = mem_table.gc();
        let nanos = elapsed_nanos(&start);
        self.record_cycle(collected, start);
        self.record_duration(nanos);
        assert(self.spec_stats().avg_duration_ms == smoothed(
            old(self).spec_stats().avg_duration_ms,
            sample_millis(nanos),
        ));
        collected
    }

    /// A copy of the counts as they stand.
    pub fn get_stats(&self) -> (snapshot: GcStatsSnapshot)
        ensures
            snapshot.cycles == self.spec_stats().cycles,
            snapshot.collected == self.spec_stats().collected,
            snapshot.last_run == self.spec_stats().last_run,
            snapshot.avg_duration_ms == self.spec_stats().avg_duration_ms,
    {
        GcStatsSnapshot {
            cycles: self.stats.cycles,
            collected: self.stats.collected,
            last_run: self.stats.last_run,
            avg_duration_ms: self.stats.avg_duration_ms,
        }
    }
}

} // verus!
