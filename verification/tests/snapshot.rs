use workingdb::persistence::snapshot::{
    encode_header, has_suffix, is_snapshot_name, newest_first, snapshot_name, snapshot_timestamp,
    stale_count, SnapshotHeader, SNAPSHOT_HEADER_SIZE,
};

fn names(list: &[&str]) -> Vec<Vec<u8>> {
    list.iter().map(|n| n.as_bytes().to_vec()).collect()
}

#[test]
fn snapshot_header_bytes() {
    let header = SnapshotHeader { timestamp: 0x0102030405060708, kv_count: 3, data_crc: 0xff };
    let bytes = encode_header(&header);
    assert_eq!(bytes.len(), SNAPSHOT_HEADER_SIZE);
    let mut expected = b"WDBSNAP\0".to_vec();
    expected.extend_from_slice(&[1, 0, 0, 0]);
    expected.extend_from_slice(&[8, 7, 6, 5, 4, 3, 2, 1]);
    expected.extend_from_slice(&[3, 0, 0, 0, 0, 0, 0, 0]);
    expected.extend_from_slice(&[0xff, 0, 0, 0, 0, 0, 0, 0]);
    expected.extend_from_slice(&[0; 16]);
    assert_eq!(bytes, expected);
}

#[test]
fn snapshot_names() {
    assert_eq!(snapshot_name(0), b"snapshot-0.wdb".to_vec());
    assert_eq!(snapshot_name(1_700_000_000), b"snapshot-1700000000.wdb".to_vec());
    assert_eq!(snapshot_timestamp(&snapshot_name(1_700_000_000)), 1_700_000_000);
    assert_eq!(snapshot_timestamp(&snapshot_name(u64::MAX)), u64::MAX);
}

#[test]
fn snapshot_names_that_tell_no_time_tell_zero() {
    for name in [
        "", "snapshot-", ".wdb", "snapshot-.wdb", "snapshot-12", "snapshot-12.wd", "snap-12.wdb",
        "snapshot-x.wdb", "snapshot--1.wdb", "snapshot-1.5.wdb", "snapshot-18446744073709551616.wdb",
        "Snapshot-12.wdb", "snapshot-12.wdb.bak",
    ] {
        assert_eq!(snapshot_timestamp(name.as_bytes()), 0, "{:?}", name);
    }
    assert_eq!(snapshot_timestamp(b"snapshot-+12.wdb"), 12);
    assert_eq!(snapshot_timestamp(b"snapshot-007.wdb"), 7);
}

#[test]
fn snapshot_files_are_told_by_their_name() {
    assert!(is_snapshot_name(b"snapshot-12.wdb"));
    assert!(is_snapshot_name(b"snapshot-x.wdb"));
    assert!(is_snapshot_name(b"snapshot-.wdb"));
    assert!(is_snapshot_name(b"snapshot-1.tmp.wdb"));
    assert!(!is_snapshot_name(b"snapshot-12.wdb.bak"));
    assert!(!is_snapshot_name(b"snapshot-12"));
    assert!(!is_snapshot_name(b"other-12.wdb"));
    assert!(!is_snapshot_name(b"snapshot.wdb"));
    assert!(has_suffix(b"a.wdb", b".wdb"));
    assert!(has_suffix(b".wdb", b".wdb"));
    assert!(has_suffix(b"x", b""));
    assert!(!has_suffix(b"wdb", b".wdb"));
    assert!(!has_suffix(b"a.wdc", b".wdb"));
}

#[test]
fn snapshots_are_listed_newest_first() {
    let sorted = newest_first(&names(&[
        "snapshot-5.wdb", "snapshot-100.wdb", "snapshot-x.wdb", "snapshot-20.wdb", "snapshot-100.wdb",
    ]));
    assert_eq!(
        sorted,
        names(&["snapshot-100.wdb", "snapshot-100.wdb", "snapshot-20.wdb", "snapshot-5.wdb", "snapshot-x.wdb"])
    );
    assert_eq!(newest_first(&names(&[])), names(&[]));
    assert_eq!(newest_first(&names(&["snapshot-1.wdb"])), names(&["snapshot-1.wdb"]));
}

#[test]
fn snapshots_of_one_time_stay_in_their_order() {
    let given = names(&["snapshot-7.wdb", "snapshot-007.wdb", "snapshot-+7.wdb", "snapshot-9.wdb", "snapshot-07.wdb"]);
    let sorted = newest_first(&given);
    assert_eq!(
        sorted,
        names(&["snapshot-9.wdb", "snapshot-7.wdb", "snapshot-007.wdb", "snapshot-+7.wdb", "snapshot-07.wdb"])
    );
    // As a stable sort by the time, newest first, orders them.
    let mut expected = given.clone();
    expected.sort_by(|a, b| snapshot_timestamp(b).cmp(&snapshot_timestamp(a)));
    assert_eq!(sorted, expected);
}

#[test]
fn only_the_newest_are_kept() {
    assert_eq!(stale_count(5, 3), 2);
    assert_eq!(stale_count(3, 3), 0);
    assert_eq!(stale_count(2, 3), 0);
    assert_eq!(stale_count(4, 0), 4);
    assert_eq!(stale_count(0, 0), 0);
}
