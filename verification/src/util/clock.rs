//! The clocks the engine reads: a monotonic one for expiry and latency, and
//! the wall clock for record timestamps. The readings are trusted; what is
//! computed from them is verified.

use std::time::{Duration, Instant, SystemTime, UNIX_EPOCH};
use vstd::prelude::*;

verus! {

/// `std::time::Instant`, carried as an opaque value.
#[verifier::external_type_specification]
#[verifier::external_body]
pub struct ExInstant(Instant);

/// `std::time::SystemTime`, carried as an opaque value.
#[verifier::external_type_specification]
#[verifier::external_body]
pub struct ExSystemTime(SystemTime);

/// The whole nanoseconds that a `Duration` spans, as `Duration::as_nanos`
/// reports them.
pub uninterp spec fn spec_as_nanos(d: Duration) -> u128;

/// `Instant::now` reads the monotonic clock; nothing is claimed of the value.
pub assume_specification[ Instant::now ]() -> Instant;

/// `Instant::elapsed` measures the time since the instant was taken; nothing
/// is claimed of the value.
pub assume_specification[ Instant::elapsed ](origin: &Instant) -> Duration;

/// `Duration::as_nanos` returns the total number of nanoseconds of the
/// duration, a function of the duration alone.
pub assume_specification[ Duration::as_nanos ](d: &Duration) -> (nanos: u128)
    ensures
        nanos == spec_as_nanos(*d),
;

/// `Duration::from_secs` makes the duration of that many whole seconds.
pub assume_specification[ Duration::from_secs ](secs: u64) -> (d: Duration)
    ensures
        spec_as_nanos(d) == secs * NANOS_PER_SEC,
;

/// `Duration::as_secs` returns the whole seconds of the duration; nothing
/// is claimed of the value.
pub assume_specification[ Duration::as_secs ](d: &Duration) -> u64;

/// `SystemTime::now` reads the wall clock; nothing is claimed of the value.
pub assume_specification[ SystemTime::now ]() -> SystemTime;

/// `SystemTime::duration_since` against `UNIX_EPOCH`: the time since the
/// epoch, or `None` where the clock stands before it.
#[verifier::external_body]
fn since_unix_epoch(t: &SystemTime) -> Option<Duration> {
    t.duration_since(UNIX_EPOCH).ok()
}

/// Nanoseconds in a millisecond.
pub const NANOS_PER_MILLI: u128 = 1_000_000;

/// Nanoseconds in a second.
pub const NANOS_PER_SEC: u128 = 1_000_000_000;

/// The whole milliseconds in `nanos` nanoseconds, cut to 64 bits.
pub open spec fn spec_millis(nanos: u128) -> u64 {
    ((nanos / NANOS_PER_MILLI) % 0x1_0000_0000_0000_0000) as u64
}

/// The whole milliseconds in `nanos` nanoseconds, cut to 64 bits.
pub fn millis_of_nanos(nanos: u128) -> (ms: u64)
    ensures
        ms == spec_millis(nanos),
{
    let whole: u128 = nanos / NANOS_PER_MILLI;
    let cut: u128 = whole % 0x1_0000_0000_0000_0000;
    cut as u64
}

/// Nanoseconds on the monotonic clock since `origin` was taken: what
/// `Duration::as_nanos` makes of what `Instant::elapsed` gave. The clock
/// decides the duration; nothing is known of it beforehand.
pub fn elapsed_nanos(origin: &Instant) -> (nanos: u128)
    ensures
        exists|elapsed: Duration| nanos == #[trigger] spec_as_nanos(elapsed),
{
    let d = origin.elapsed();
    d.as_nanos()
}

/// Milliseconds on the wall clock since the Unix epoch, cut to 64 bits; zero
/// where the clock stands before the epoch. The clock decides the time
/// since the epoch; `timestamp_ms` says what becomes of each answer.
pub fn current_timestamp_ms() -> (ms: u64)
    ensures
        exists|since_epoch: Option<Duration>| ms == #[trigger] spec_timestamp_ms(since_epoch),
{
    let t = SystemTime::now();
    let since_epoch = since_unix_epoch(&t);
    timestamp_ms(since_epoch)
}

/// The timestamp for a time since the Unix epoch: its whole milliseconds,
/// cut to 64 bits, and zero where there is none because the clock stands
/// before the epoch.
pub open spec fn spec_timestamp_ms(since_epoch: Option<Duration>) -> u64 {
    match since_epoch {
        Some(d) => spec_millis(spec_as_nanos(d)),
        None => 0,
    }
}

/// The timestamp for a time since the Unix epoch.
pub fn timestamp_ms(since_epoch: Option<Duration>) -> (ms: u64)
    ensures
        ms == spec_timestamp_ms(since_epoch),
{
    match since_epoch {
        Some(d) => millis_of_nanos(d.as_nanos()),
        None => 0,
    }
}

} // verus!
