use std::time::{Duration, Instant};
use workingdb::storage::memory::MemTable;

/// Let `span` pass on the real clock.
fn wait_mem(span: Duration) {
    let start = Instant::now();
    while start.elapsed() < span {
        std::hint::spin_loop();
    }
}

#[test]
fn test_set_get() {
    let mut mem = MemTable::new();
    let key = b"test_key";
    let value = b"test_value".to_vec();

    // Set value
    mem.set(key, value.clone(), None).unwrap();

    // Get value
    let result = mem.get(key);
    assert_eq!(result, Some(value));
}

#[test]
fn test_delete() {
    let mut mem = MemTable::new();
    let key = b"test_key";
    let value = b"test_value".to_vec();

    // Set value
    mem.set(key, value, None).unwrap();

    // Delete value
    let result = mem.delete(key).unwrap();
    assert!(result);

    // Check it's gone
    assert_eq!(mem.get(key), None);
}

#[test]
fn test_ttl() {
    let mut mem = MemTable::new();
    let key = b"test_key";
    let value = b"test_value".to_vec();

    // Set with 100ms TTL
    mem.set(key, value, Some(Duration::from_millis(100))).unwrap();

    // Immediately available
    assert!(mem.get(key).is_some());

    // Wait for expiration
    wait_mem(Duration::from_millis(150));

    // Should be gone
    assert!(mem.get(key).is_none());
}

const MS: u128 = 1_000_000;

#[test]
fn set_then_get_then_delete_then_get() {
    let mut mem = MemTable::new();
    mem.set(b"a", vec![1, 2, 3], None).unwrap();
    assert_eq!(mem.get(b"a"), Some(vec![1, 2, 3]));
    assert_eq!(mem.delete(b"a"), Ok(true));
    assert_eq!(mem.get(b"a"), None);
}

#[test]
fn delete_of_a_key_never_set_is_false() {
    let mut mem = MemTable::new();
    assert_eq!(mem.delete(b"nothing"), Ok(false));
    mem.set(b"other", vec![9], None).unwrap();
    assert_eq!(mem.delete(b"nothing"), Ok(false));
    assert_eq!(mem.get(b"other"), Some(vec![9]));
}

#[test]
fn set_replaces_the_whole_entry() {
    let mut mem = MemTable::with_partitions(3);
    mem.set_at(b"k", vec![1], Some(10 * MS), 0).unwrap();
    mem.set_at(b"k", vec![2, 2], None, 5 * MS).unwrap();
    // The second write has no expiry: the first one's is gone with it.
    assert_eq!(mem.get_at(b"k", 1_000_000 * MS), Some(vec![2, 2]));
    assert_eq!(mem.gc_at(1_000_000 * MS), 0);
}

#[test]
fn empty_key_and_empty_value_are_kept() {
    let mut mem = MemTable::with_partitions(2);
    mem.set(b"", vec![], None).unwrap();
    assert_eq!(mem.get(b""), Some(vec![]));
    assert_eq!(mem.delete(b""), Ok(true));
    assert_eq!(mem.get(b""), None);
}

#[test]
fn entry_lives_up_to_its_expiry_and_not_beyond() {
    let mut mem = MemTable::with_partitions(4);
    mem.set_at(b"k", vec![7], Some(100 * MS), 1_000 * MS).unwrap();
    assert_eq!(mem.get_at(b"k", 1_000 * MS), Some(vec![7]));
    assert_eq!(mem.get_at(b"k", 1_100 * MS - 1), Some(vec![7]));
    // The expiry instant itself still reads.
    assert_eq!(mem.get_at(b"k", 1_100 * MS), Some(vec![7]));
    assert_eq!(mem.get_at(b"k", 1_100 * MS + 1), None);
    assert_eq!(mem.get_at(b"k", 1_150 * MS), None);
}

#[test]
fn expired_entry_reads_as_absent_but_stays_until_swept() {
    let mut mem = MemTable::with_partitions(4);
    mem.set_at(b"k", vec![7], Some(100 * MS), 0).unwrap();
    assert_eq!(mem.get_at(b"k", 150 * MS), None);
    // No sweep has run: the entry is still there to be deleted.
    assert_eq!(mem.delete(b"k"), Ok(true));
    assert_eq!(mem.delete(b"k"), Ok(false));

    mem.set_at(b"k", vec![7], Some(100 * MS), 0).unwrap();
    assert_eq!(mem.gc_at(150 * MS), 1);
    assert_eq!(mem.delete(b"k"), Ok(false));
}

#[test]
fn expiry_is_held_at_the_top_of_the_timeline() {
    let mut mem = MemTable::with_partitions(4);
    mem.set_at(b"k", vec![1], Some(10), u128::MAX - 1).unwrap();
    assert_eq!(mem.get_at(b"k", u128::MAX), Some(vec![1]));
    assert_eq!(mem.gc_at(u128::MAX), 0);
}

#[test]
fn sweep_removes_exactly_the_expired_and_counts_them() {
    let mut mem = MemTable::with_partitions(5);
    for i in 0..20u8 {
        let ttl = if i % 4 == 0 { Some(50 * MS) } else if i % 4 == 1 { Some(500 * MS) } else { None };
        mem.set_at(&[b'k', i], vec![i], ttl, 0).unwrap();
    }
    // Nothing is expired at the expiry instant itself.
    assert_eq!(mem.gc_at(50 * MS), 0);
    // The five short-lived entries go, and nothing else.
    assert_eq!(mem.gc_at(100 * MS), 5);
    for i in 0..20u8 {
        let held = mem.get_at(&[b'k', i], 100 * MS);
        if i % 4 == 0 {
            assert_eq!(held, None);
        } else {
            assert_eq!(held, Some(vec![i]));
        }
    }
    // A second sweep at the same instant finds nothing.
    assert_eq!(mem.gc_at(100 * MS), 0);
    // Later the five longer-lived ones go; entries without an expiry never do.
    assert_eq!(mem.gc_at(u128::MAX), 5);
    assert_eq!(mem.gc_at(u128::MAX), 0);
    for i in 0..20u8 {
        let held = mem.get_at(&[b'k', i], u128::MAX);
        if i % 4 >= 2 {
            assert_eq!(held, Some(vec![i]));
        } else {
            assert_eq!(held, None);
        }
    }
}

#[test]
fn sweep_on_the_clock_counts_what_expired() {
    let mut mem = MemTable::with_partitions(3);
    mem.set(b"short", vec![1], Some(Duration::from_millis(20))).unwrap();
    mem.set(b"long", vec![2], Some(Duration::from_secs(3600))).unwrap();
    mem.set(b"forever", vec![3], None).unwrap();
    wait_mem(Duration::from_millis(40));
    assert_eq!(mem.gc(), 1);
    assert_eq!(mem.get(b"short"), None);
    assert_eq!(mem.get(b"long"), Some(vec![2]));
    assert_eq!(mem.get(b"forever"), Some(vec![3]));
}

#[test]
fn hash_is_fnv1a() {
    let mem = MemTable::new();
    assert_eq!(mem.hash_key(b""), 0xcbf29ce484222325);
    assert_eq!(mem.hash_key(b"a"), 0xaf63dc4c8601ec8c);
    assert_eq!(mem.hash_key(b"foobar"), 0x85944171f73967e8);
    assert_eq!(mem.hash_key(b"test_key"), 0x5009ad43d1f24c35);
}

#[test]
fn shard_is_the_hash_modulo_the_count() {
    let eight = MemTable::new();
    assert_eq!(eight.partition_count(), 8);
    assert_eq!(eight.get_partition_for_key(b""), 5);
    assert_eq!(eight.get_partition_for_key(b"a"), 4);
    assert_eq!(eight.get_partition_for_key(b"foobar"), 0);
    assert_eq!(eight.get_partition_for_key(b"test_key"), 5);

    let five = MemTable::with_partitions(5);
    assert_eq!(five.partition_count(), 5);
    assert_eq!(five.get_partition_for_key(b""), 2);
    assert_eq!(five.get_partition_for_key(b"a"), 1);
    assert_eq!(five.get_partition_for_key(b"foobar"), 3);
    assert_eq!(five.get_partition_for_key(b"test_key"), 4);

    let one = MemTable::with_partitions(1);
    assert_eq!(one.get_partition_for_key(b"anything"), 0);
}

#[test]
fn same_key_selects_the_same_shard_every_time() {
    let mut mem = MemTable::with_partitions(7);
    let first = mem.get_partition_for_key(b"stable");
    for i in 0..50u8 {
        mem.set(&[i], vec![i], None).unwrap();
        assert_eq!(mem.get_partition_for_key(b"stable"), first);
        assert_eq!(mem.partition_count(), 7);
    }
    mem.gc();
    assert_eq!(mem.get_partition_for_key(b"stable"), first);
}

#[test]
fn recovery_entry_points_write_and_delete_like_the_others() {
    let mut mem = MemTable::with_partitions(4);
    mem.recover_set(b"a", vec![1], None).unwrap();
    mem.recover_set_at(b"b", vec![2], Some(10 * MS), 0).unwrap();
    assert_eq!(mem.get_at(b"a", 0), Some(vec![1]));
    assert_eq!(mem.get_at(b"b", 10 * MS), Some(vec![2]));
    assert_eq!(mem.get_at(b"b", 10 * MS + 1), None);
    assert_eq!(mem.recover_delete(b"a"), Ok(true));
    assert_eq!(mem.recover_delete(b"a"), Ok(false));
}

#[test]
fn many_keys_in_few_shards() {
    let mut mem = MemTable::with_partitions(2);
    for i in 0..300u32 {
        mem.set(&i.to_le_bytes(), i.to_be_bytes().to_vec(), None).unwrap();
    }
    for i in 0..300u32 {
        assert_eq!(mem.get(&i.to_le_bytes()), Some(i.to_be_bytes().to_vec()));
    }
    for i in (0..300u32).step_by(2) {
        assert_eq!(mem.delete(&i.to_le_bytes()), Ok(true));
    }
    for i in 0..300u32 {
        let held = mem.get(&i.to_le_bytes());
        if i % 2 == 0 {
            assert_eq!(held, None);
        } else {
            assert_eq!(held, Some(i.to_be_bytes().to_vec()));
        }
    }
}

#[test]
fn table_clock_runs_from_the_making_of_the_table() {
    let mem = MemTable::with_partitions(1);
    let first = mem.now();
    wait_mem(Duration::from_millis(2));
    let second = mem.now();
    assert!(second >= first + 2_000_000);
    assert!(second < 60_000_000_000);
}
