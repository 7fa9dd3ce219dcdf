use std::time::{Duration, Instant};
use workingdb::util::clock::{current_timestamp_ms, elapsed_nanos, millis_of_nanos, timestamp_ms};

#[test]
fn timestamp_is_the_whole_milliseconds_since_the_epoch() {
    assert_eq!(timestamp_ms(Some(Duration::from_millis(1_700_000_000_123))), 1_700_000_000_123);
    assert_eq!(timestamp_ms(Some(Duration::from_micros(2_999_999))), 2_999);
    assert_eq!(timestamp_ms(Some(Duration::from_nanos(999_999))), 0);
    assert_eq!(timestamp_ms(Some(Duration::ZERO)), 0);
}

#[test]
fn timestamp_before_the_epoch_is_zero() {
    assert_eq!(timestamp_ms(None), 0);
}

#[test]
fn timestamp_keeps_its_low_64_bits() {
    // More milliseconds than 64 bits hold: 2^64 + 5.
    let millis: u128 = (1u128 << 64) + 5;
    let d = Duration::new((millis / 1000) as u64, ((millis % 1000) * 1_000_000) as u32);
    assert_eq!(timestamp_ms(Some(d)), 5);
    assert_eq!(millis_of_nanos(millis * 1_000_000 + 999_999), 5);
}

#[test]
fn wall_clock_reads_the_present() {
    // After 2020 and before 2100, in milliseconds.
    let first = current_timestamp_ms();
    assert!(first > 1_577_836_800_000);
    assert!(first < 4_102_444_800_000);
}

#[test]
fn monotonic_clock_runs_from_its_origin() {
    let origin = Instant::now();
    let first = elapsed_nanos(&origin);
    while origin.elapsed() < Duration::from_millis(2) {
        std::hint::spin_loop();
    }
    let second = elapsed_nanos(&origin);
    assert!(second >= first);
    assert!(second >= 2_000_000);
    assert!(second < 60_000_000_000);
}
