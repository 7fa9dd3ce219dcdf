//! Snapshot files: how they are named, what their header holds, and which
//! of them are the newest. Writing, listing and removing the files is the
//! host's part.
//!
//! A snapshot is named `snapshot-<seconds>.wdb` after the time it was made,
//! in seconds since the Unix epoch. Its header has 52 bytes: the magic
//! `WDBSNAP\0`, the version, the time, the number of pairs, the checksum of
//! the data, and 16 bytes in reserve; integers little-endian.

use crate::network::protocol::has_prefix;
use crate::util::text::{decimal, parse_u64, push_decimal, spec_parse_u64};
use vstd::bytes::{
    spec_u32_to_le_bytes, spec_u64_to_le_bytes, u32_to_le_bytes, u64_to_le_bytes,
};
use vstd::prelude::*;
use vstd::slice::{slice_subrange, slice_to_vec};
use vstd::string::StringSliceAdditionalSpecFns;

verus! {

/// The version of the snapshot format.
pub const SNAPSHOT_VERSION: u32 = 1;

/// The length of a snapshot's header.
pub const SNAPSHOT_HEADER_SIZE: usize = 52;

/// The header of a snapshot.
pub struct SnapshotHeader {
    /// When the snapshot was made, in seconds since the Unix epoch.
    pub timestamp: u64,
    /// The number of pairs in the snapshot.
    pub kv_count: u64,
    /// The checksum of the data after the header.
    pub data_crc: u64,
}

/// The magic with which a snapshot starts: `WDBSNAP` and a zero byte.
pub open spec fn magic() -> Seq<u8> {
    "WDBSNAP\0".spec_bytes()
}

/// The bytes of a snapshot's header.
pub open spec fn header_bytes(h: SnapshotHeader) -> Seq<u8> {
    magic() + spec_u32_to_le_bytes(SNAPSHOT_VERSION) + spec_u64_to_le_bytes(h.timestamp)
        + spec_u64_to_le_bytes(h.kv_count) + spec_u64_to_le_bytes(h.data_crc) + Seq::new(
        16,
        |i: int| 0u8,
    )
}

/// The name of the snapshot made at `timestamp`.
pub open spec fn name_bytes(timestamp: u64) -> Seq<u8> {
    "snapshot-".spec_bytes() + decimal(timestamp as nat) + ".wdb".spec_bytes()
}

/// Whether `suffix` stands at the end of `name`.
pub open spec fn ends_with(name: Seq<u8>, suffix: Seq<u8>) -> bool {
    suffix.len() <= name.len() && name.subrange(name.len() - suffix.len(), name.len() as int)
        == suffix
}

/// Whether a file of this name counts as a snapshot: the name starts with
/// `snapshot-` and ends with `.wdb`.
pub open spec fn spec_is_snapshot(name: Seq<u8>) -> bool {
    "snapshot-".spec_bytes().is_prefix_of(name) && ends_with(name, ".wdb".spec_bytes())
}

/// The time that a file name tells: the number between `snapshot-` and
/// `.wdb`, and zero where the name is not of that form.
pub open spec fn spec_timestamp(name: Seq<u8>) -> u64 {
    let prefix = "snapshot-".spec_bytes();
    let suffix = ".wdb".spec_bytes();
    if prefix.is_prefix_of(name) && ends_with(name.skip(prefix.len() as int), suffix) {
        match spec_parse_u64(name.subrange(prefix.len() as int, name.len() - suffix.len())) {
            Some(t) => t,
            None => 0,
        }
    } else {
        0
    }
}

/// `names` with `name` put in before the first name that is older than it.
pub open spec fn put_in(names: Seq<Seq<u8>>, name: Seq<u8>) -> Seq<Seq<u8>>
    decreases names.len(),
{
    if names.len() == 0 {
        seq![name]
    } else if spec_timestamp(names[0]) < spec_timestamp(name) {
        seq![name] + names
    } else {
        seq![names[0]] + put_in(names.skip(1), name)
    }
}

/// `names` with the newest first; names of one time stay in their order.
pub open spec fn spec_newest_first(names: Seq<Seq<u8>>) -> Seq<Seq<u8>>
    decreases names.len(),
{
    if names.len() == 0 {
        Seq::empty()
    } else {
        put_in(spec_newest_first(names.drop_last()), names.last())
    }
}

/// Whether no name is followed by a newer one.
pub open spec fn newest_come_first(names: Seq<Seq<u8>>) -> bool {
    forall|i: int, j: int|
        0 <= i < j < names.len() ==> spec_timestamp(#[trigger] names[i]) >= spec_timestamp(
            #[trigger] names[j],
        )
}

/// Putting a name in keeps the order, and adds that name and no other.
pub proof fn lemma_put_in(names: Seq<Seq<u8>>, name: Seq<u8>)
    requires
        newest_come_first(names),
    ensures
        newest_come_first(put_in(names, name)),
        put_in(names, name).len() == names.len() + 1,
        put_in(names, name).to_multiset() == names.to_multiset().insert(name),
    decreases names.len(),
{
    broadcast use vstd::seq_lib::group_to_multiset_ensures;

    let out = put_in(names, name);
    if names.len() == 0 {
        assert(names =~= Seq::empty());
        assert(out =~= Seq::<Seq<u8>>::empty().push(name));
    } else if spec_timestamp(names[0]) < spec_timestamp(name) {
        assert(out[0] == name);
        assert forall|i: int, j: int| 0 <= i < j < out.len() implies spec_timestamp(
            #[trigger] out[i],
        ) >= spec_timestamp(#[trigger] out[j]) by {
            assert(out[j] == names[j - 1]);
            if i > 0 {
                assert(out[i] == names[i - 1]);
            } else {
                assert(spec_timestamp(names[0]) >= spec_timestamp(names[j - 1]) || j - 1 == 0);
            }
        }
        assert(out =~= names.insert(0, name));
        vstd::seq_lib::to_multiset_insert(names, 0, name);
    } else {
        let rest = names.skip(1);
        assert forall|i: int, j: int| 0 <= i < j < rest.len() implies spec_timestamp(
            #[trigger] rest[i],
        ) >= spec_timestamp(#[trigger] rest[j]) by {
            assert(rest[i] == names[i + 1]);
            assert(rest[j] == names[j + 1]);
        }
        lemma_put_in(rest, name);
        let tail = put_in(rest, name);
        assert(out == seq![names[0]] + tail);
        assert forall|i: int, j: int| 0 <= i < j < out.len() implies spec_timestamp(
            #[trigger] out[i],
        ) >= spec_timestamp(#[trigger] out[j]) by {
            assert(out[j] == tail[j - 1]);
            if i > 0 {
                assert(out[i] == tail[i - 1]);
            } else {
                // Every name of the tail is the new name or one of the rest.
                assert(tail.to_multiset().count(tail[j - 1]) > 0);
                if tail[j - 1] != name {
                    assert(rest.to_multiset().count(tail[j - 1]) > 0);
                    let k = choose|k: int| 0 <= k < rest.len() && rest[k] == tail[j - 1];
                    assert(rest[k] == names[k + 1]);
                }
            }
        }
        assert(out =~= tail.insert(0, names[0]));
        vstd::seq_lib::to_multiset_insert(tail, 0, names[0]);
        assert(names =~= rest.insert(0, names[0]));
        vstd::seq_lib::to_multiset_insert(rest, 0, names[0]);
        assert(out.to_multiset() =~= names.to_multiset().insert(name));
    }
}

/// The names with the newest first are the names that were given, each as
/// often as it was given, and no name is followed by a newer one.
pub proof fn lemma_newest_first(names: Seq<Seq<u8>>)
    ensures
        newest_come_first(spec_newest_first(names)),
        spec_newest_first(names).len() == names.len(),
        spec_newest_first(names).to_multiset() == names.to_multiset(),
    decreases names.len(),
{
    broadcast use vstd::seq_lib::group_to_multiset_ensures;

    if names.len() == 0 {
        assert(names =~= Seq::empty());
    } else {
        lemma_newest_first(names.drop_last());
        lemma_put_in(spec_newest_first(names.drop_last()), names.last());
        assert(names =~= names.drop_last().push(names.last()));
    }
}

/// The bytes of a snapshot's header.
pub fn encode_header(h: &SnapshotHeader) -> (bytes: Vec<u8>)
    ensures
        bytes@ == header_bytes(*h),
{
    let mut bytes: Vec<u8> = Vec::new();
    bytes.extend_from_slice("WDBSNAP\0".as_bytes());
    bytes.extend_from_slice(u32_to_le_bytes(SNAPSHOT_VERSION).as_slice());
    bytes.extend_from_slice(u64_to_le_bytes(h.timestamp).as_slice());
    bytes.extend_from_slice(u64_to_le_bytes(h.kv_count).as_slice());
    bytes.extend_from_slice(u64_to_le_bytes(h.data_crc).as_slice());
    let ghost before = bytes@;
    let mut i: usize = 0;
    while i < 16
        invariant
            i <= 16,
            bytes@ == before + Seq::new(i as nat, |k: int| 0u8),
        decreases 16 - i,
    {
        bytes.push(0);
        assert(bytes@ =~= before + Seq::new((i + 1) as nat, |k: int| 0u8));
        i = i + 1;
    }
    assert(bytes@ =~= header_bytes(*h));
    bytes
}

/// The name of the snapshot made at `timestamp`.
pub fn snapshot_name(timestamp: u64) -> (name: Vec<u8>)
    ensures
        name@ == name_bytes(timestamp),
{
    let mut name: Vec<u8> = Vec::new();
    name.extend_from_slice("snapshot-".as_bytes());
    push_decimal(&mut name, timestamp);
    name.extend_from_slice(".wdb".as_bytes());
    assert(name@ =~= name_bytes(timestamp));
    name
}

/// Whether `suffix` stands at the end of `name`.
pub fn has_suffix(name: &[u8], suffix: &[u8]) -> (ends: bool)
    ensures
        ends == ends_with(name@, suffix@),
{
    if suffix.len() > name.len() {
        return false;
    }
    let tail = slice_subrange(name, name.len() - suffix.len(), name.len());
    let ends = has_prefix(tail, suffix);
    proof {
        if ends {
            assert(tail@.subrange(0, suffix@.len() as int) =~= tail@);
        } else if tail@ == suffix@ {
            assert(tail@.subrange(0, suffix@.len() as int) =~= tail@);
        }
    }
    ends
}

/// Whether a file of this name counts as a snapshot.
pub fn is_snapshot_name(name: &[u8]) -> (counts: bool)
    ensures
        counts == spec_is_snapshot(name@),
{
    has_prefix(name, "snapshot-".as_bytes()) && has_suffix(name, ".wdb".as_bytes())
}

/// The time that a file name tells, and zero where it tells none.
pub fn snapshot_timestamp(name: &[u8]) -> (timestamp: u64)
    ensures
        timestamp == spec_timestamp(name@),
{
    let prefix = "snapshot-".as_bytes();
    let suffix = ".wdb".as_bytes();
    if !has_prefix(name, prefix) {
        return 0;
    }
    let rest = slice_subrange(name, prefix.len(), name.len());
    assert(rest@ =~= name@.skip(prefix@.len() as int));
    if !has_suffix(rest, suffix) {
        return 0;
    }
    let digits = slice_subrange(rest, 0, rest.len() - suffix.len());
    assert(digits@ =~= name@.subrange(prefix@.len() as int, name@.len() - suffix@.len()));
    match parse_u64(digits) {
        Some(t) => t,
        None => 0,
    }
}

/// The names as plain values.
pub open spec fn names_view(names: Seq<Vec<u8>>) -> Seq<Seq<u8>> {
    names.map_values(|n: Vec<u8>| n@)
}

/// Put `name` into `names` before the first name that is older than it.
fn insert_name(names: &mut Vec<Vec<u8>>, name: Vec<u8>)
    ensures
        names_view(final(names)@) == put_in(names_view(old(names)@), name@),
{
    let stamp = snapshot_timestamp(name.as_slice());
    let mut at: usize = 0;
    while at < names.len() && snapshot_timestamp(names[at].as_slice()) >= stamp
        invariant
            at <= names.len(),
            stamp == spec_timestamp(name@),
            forall|k: int|
                0 <= k < at ==> spec_timestamp(#[trigger] names@[k]@) >= spec_timestamp(name@),
        decreases names.len() - at,
    {
        at = at + 1;
    }
    let ghost before = names_view(names@);
    proof {
        lemma_put_in_at(before, name@, at as int);
    }
    names.insert(at, name);
    assert(names_view(names@) =~= before.insert(at as int, name@));
}

/// A name goes in behind the names that are no older than it and before
/// the first that is.
proof fn lemma_put_in_at(names: Seq<Seq<u8>>, name: Seq<u8>, at: int)
    requires
        0 <= at <= names.len(),
        forall|k: int| 0 <= k < at ==> spec_timestamp(#[trigger] names[k]) >= spec_timestamp(name),
        at < names.len() ==> spec_timestamp(names[at]) < spec_timestamp(name),
    ensures
        put_in(names, name) == names.insert(at, name),
    decreases names.len(),
{
    if names.len() == 0 {
        assert(put_in(names, name) =~= names.insert(at, name));
    } else if at == 0 {
        assert(put_in(names, name) =~= names.insert(at, name));
    } else {
        let rest = names.skip(1);
        assert forall|k: int| 0 <= k < at - 1 implies spec_timestamp(#[trigger] rest[k])
            >= spec_timestamp(name) by {
            assert(rest[k] == names[k + 1]);
        }
        lemma_put_in_at(rest, name, at - 1);
        assert(spec_timestamp(names[0]) >= spec_timestamp(name));
        assert(put_in(names, name) =~= names.insert(at, name));
    }
}

/// The names with the newest first; names of one time stay in their order.
pub fn newest_first(names: &Vec<Vec<u8>>) -> (sorted: Vec<Vec<u8>>)
    ensures
        names_view(sorted@) == spec_newest_first(names_view(names@)),
        sorted@.len() == names@.len(),
        newest_come_first(names_view(sorted@)),
        names_view(sorted@).to_multiset() == names_view(names@).to_multiset(),
{
    let ghost all = names_view(names@);
    let mut sorted: Vec<Vec<u8>> = Vec::new();
    let mut i: usize = 0;
    assert(names_view(sorted@) =~= spec_newest_first(all.take(0)));
    while i < names.len()
        invariant
            i <= names@.len(),
            all == names_view(names@),
            names_view(sorted@) == spec_newest_first(all.take(i as int)),
        decreases names@.len() - i,
    {
        proof {
            assert(all.take(i + 1).drop_last() =~= all.take(i as int));
            assert(all.take(i + 1).last() == names@[i as int]@);
        }
        insert_name(&mut sorted, slice_to_vec(names[i].as_slice()));
        i = i + 1;
    }
    proof {
        assert(all.take(i as int) =~= all);
        lemma_newest_first(all);
    }
    sorted
}

/// How many of `count` snapshots are to go so that `keep_count` stay: with
/// the newest first, they are the last ones.
pub fn stale_count(count: usize, keep_count: usize) -> (stale: usize)
    ensures
        stale == (if count <= keep_count {
            0
        } else {
            count - keep_count
        }),
{
    if count <= keep_count {
        0
    } else {
        count - keep_count
    }
}

} // verus!
