//! What replay recovers of what was appended.
//!
//! A log that holds the records that were appended, in order, replays as
//! exactly those records; and a log in which one byte of one record was
//! changed replays as the records before that one, and no further.

use crate::persistence::aof::{
    apply_records, frame_at, replay, replay_from, Framed, LogRecord, ReplayEnd,
    Replayed,
};
use crate::persistence::record::{
    blank_header, command_of, header_at, lemma_header_tail_len, record_body,
    record_bytes, size_error, CommandType, EntryHeader, CRC_SIZE, HEADER_SIZE,
};
use crate::storage::memory::Contents;
use crate::util::crc64::{lemma_crc_detects_changed_byte, spec_crc};
use vstd::bytes::{
    lemma_auto_spec_u16_to_from_le_bytes, lemma_auto_spec_u32_to_from_le_bytes,
    lemma_auto_spec_u64_to_from_le_bytes, spec_u16_to_le_bytes,
    spec_u32_to_le_bytes, spec_u64_from_le_bytes, spec_u64_to_le_bytes,
};
use vstd::prelude::*;

verus! {

/// A record as it was appended.
pub struct Appended {
    pub cmd: CommandType,
    pub timestamp: u64,
    pub key: Seq<u8>,
    pub value: Seq<u8>,
    pub ttl_ms: u64,
}

impl Appended {
    /// The record's bytes in the log.
    pub open spec fn bytes(self) -> Seq<u8> {
        record_bytes(self.cmd, self.timestamp, self.key, self.value, self.ttl_ms)
    }

    /// The bytes that the record's checksum covers.
    pub open spec fn body(self) -> Seq<u8> {
        record_body(self.cmd, self.timestamp, self.key, self.value, self.ttl_ms)
    }

    /// The record's header.
    pub open spec fn header(self) -> EntryHeader {
        EntryHeader {
            crc: spec_crc(self.body()),
            ..blank_header(self.cmd, self.timestamp, self.key, self.value, self.ttl_ms)
        }
    }

    /// The key and the value fit their length fields, and the record's
    /// length fits the size field.
    pub open spec fn fits(self) -> bool {
        &&& size_error(self.key.len(), self.value.len()) is None
        &&& HEADER_SIZE + self.key.len() + self.value.len() <= u32::MAX
    }

    /// The record as replay applies it.
    pub open spec fn replayed(self) -> LogRecord {
        LogRecord { cmd: self.cmd, key: self.key, value: self.value, ttl_ms: self.ttl_ms }
    }
}

/// The log that holds `records`, in order, and nothing else.
pub open spec fn log_bytes(records: Seq<Appended>) -> Seq<u8>
    decreases records.len(),
{
    if records.len() == 0 {
        Seq::empty()
    } else {
        records[0].bytes() + log_bytes(records.skip(1))
    }
}

/// The records as replay applies them.
pub open spec fn replayed_all(records: Seq<Appended>) -> Seq<LogRecord> {
    records.map_values(|a: Appended| a.replayed())
}

/// `record` stands at `cursor` in `bytes`.
pub open spec fn stands_at(bytes: Seq<u8>, cursor: int, record: Seq<u8>) -> bool {
    &&& 0 <= cursor
    &&& cursor + record.len() <= bytes.len()
    &&& bytes.subrange(cursor, cursor + record.len()) == record
}

/// Whether the byte at `offset` in a record belongs to the key length or
/// the value length.
pub open spec fn in_length_fields(offset: int) -> bool {
    21 <= offset < 27
}

proof fn lemma_piece(bytes: Seq<u8>, cursor: int, record: Seq<u8>, from: int, to: int)
    requires
        stands_at(bytes, cursor, record),
        0 <= from <= to <= record.len(),
    ensures
        bytes.subrange(cursor + from, cursor + to) == record.subrange(from, to),
{
    let whole = bytes.subrange(cursor, cursor + record.len());
    assert forall|k: int| 0 <= k < to - from implies bytes.subrange(cursor + from, cursor + to)[k]
        == record.subrange(from, to)[k] by {
        assert(whole[from + k] == bytes[cursor + from + k]);
    }
    assert(bytes.subrange(cursor + from, cursor + to) =~= record.subrange(from, to));
}

/// Where each field lies in a record's bytes.
proof fn lemma_layout(a: Appended)
    ensures
        a.bytes().len() == HEADER_SIZE + a.key.len() + a.value.len(),
        a.body().len() == HEADER_SIZE - CRC_SIZE + a.key.len() + a.value.len(),
        a.bytes().subrange(0, 8) == spec_u64_to_le_bytes(a.header().crc),
        a.bytes().subrange(8, 12) == spec_u32_to_le_bytes(a.header().size),
        a.bytes()[12] == a.header().cmd_type,
        a.bytes().subrange(13, 21) == spec_u64_to_le_bytes(a.header().timestamp),
        a.bytes().subrange(21, 23) == spec_u16_to_le_bytes(a.header().key_size),
        a.bytes().subrange(23, 27) == spec_u32_to_le_bytes(a.header().value_size),
        a.bytes().subrange(27, 35) == spec_u64_to_le_bytes(a.header().ttl_ms),
        a.bytes().subrange(35, 35 + a.key.len() as int) == a.key,
        a.bytes().subrange(35 + a.key.len() as int, 35 + a.key.len() + a.value.len() as int)
            == a.value,
        a.bytes().subrange(8, a.bytes().len() as int) == a.body(),
{
    let h = a.header();
    let b = a.bytes();
    lemma_auto_spec_u16_to_from_le_bytes();
    lemma_auto_spec_u32_to_from_le_bytes();
    lemma_auto_spec_u64_to_from_le_bytes();
    lemma_header_tail_len(blank_header(a.cmd, a.timestamp, a.key, a.value, a.ttl_ms));
    let crc = spec_u64_to_le_bytes(h.crc);
    let size = spec_u32_to_le_bytes(h.size);
    let ts = spec_u64_to_le_bytes(h.timestamp);
    let ks = spec_u16_to_le_bytes(h.key_size);
    let vs = spec_u32_to_le_bytes(h.value_size);
    let ttl = spec_u64_to_le_bytes(h.ttl_ms);
    assert(b =~= crc + size + seq![h.cmd_type] + ts + ks + vs + ttl + a.key + a.value);
    assert(b.subrange(0, 8) =~= crc);
    assert(b.subrange(8, 12) =~= size);
    assert(b.subrange(13, 21) =~= ts);
    assert(b.subrange(21, 23) =~= ks);
    assert(b.subrange(23, 27) =~= vs);
    assert(b.subrange(27, 35) =~= ttl);
    assert(b.subrange(35, 35 + a.key.len() as int) =~= a.key);
    assert(b.subrange(35 + a.key.len() as int, 35 + a.key.len() + a.value.len() as int)
        =~= a.value);
    assert(b.subrange(8, b.len() as int) =~= a.body());
}

/// The header that is read where a record stands is the record's own.
proof fn lemma_header_of_record(bytes: Seq<u8>, cursor: int, a: Appended)
    requires
        stands_at(bytes, cursor, a.bytes()),
    ensures
        header_at(bytes, cursor) == a.header(),
{
    lemma_layout(a);
    lemma_auto_spec_u16_to_from_le_bytes();
    lemma_auto_spec_u32_to_from_le_bytes();
    lemma_auto_spec_u64_to_from_le_bytes();
    let b = a.bytes();
    lemma_piece(bytes, cursor, b, 0, 8);
    lemma_piece(bytes, cursor, b, 8, 12);
    lemma_piece(bytes, cursor, b, 12, 13);
    lemma_piece(bytes, cursor, b, 13, 21);
    lemma_piece(bytes, cursor, b, 21, 23);
    lemma_piece(bytes, cursor, b, 23, 27);
    lemma_piece(bytes, cursor, b, 27, 35);
    assert(bytes.subrange(cursor + 12, cursor + 13)[0] == b.subrange(12, 13)[0]);
}

/// Where a record that fits stands, replay reads that record.
pub proof fn lemma_frame_of_record(bytes: Seq<u8>, cursor: int, a: Appended)
    requires
        a.fits(),
        stands_at(bytes, cursor, a.bytes()),
    ensures
        frame_at(bytes, cursor) == (Framed::Entry {
            header: a.header(),
            key: a.key,
            value: a.value,
        }),
        a.header().size == a.bytes().len(),
        a.bytes().len() == HEADER_SIZE + a.key.len() + a.value.len(),
        command_of(a.header().cmd_type) == Some(a.cmd),
{
    lemma_layout(a);
    lemma_header_of_record(bytes, cursor, a);
    let b = a.bytes();
    let k = a.key.len() as int;
    let v = a.value.len() as int;
    lemma_piece(bytes, cursor, b, 8, 35 + k + v);
    lemma_piece(bytes, cursor, b, 35, 35 + k);
    lemma_piece(bytes, cursor, b, 35 + k, 35 + k + v);
}

/// A log's bytes are those of its first records followed by those of the rest.
pub proof fn lemma_log_split(records: Seq<Appended>, i: int)
    requires
        0 <= i <= records.len(),
    ensures
        log_bytes(records) == log_bytes(records.take(i)) + log_bytes(records.skip(i)),
    decreases i,
{
    if i == 0 {
        assert(records.take(0) =~= Seq::empty());
        assert(records.skip(0) =~= records);
        assert(log_bytes(records.take(0)) =~= Seq::empty());
        assert(log_bytes(records) =~= log_bytes(records.take(i)) + log_bytes(records.skip(i)));
    } else {
        let rest = records.skip(1);
        lemma_log_split(rest, i - 1);
        assert(rest.take(i - 1) =~= records.take(i).skip(1));
        assert(rest.skip(i - 1) =~= records.skip(i));
        assert(records.take(i)[0] == records[0]);
        assert(log_bytes(records) =~= log_bytes(records.take(i)) + log_bytes(records.skip(i)));
    }
}

/// Appending one record to a log appends its bytes.
pub proof fn lemma_log_push(records: Seq<Appended>, a: Appended)
    ensures
        log_bytes(records.push(a)) == log_bytes(records) + a.bytes(),
{
    let all = records.push(a);
    lemma_log_split(all, records.len() as int);
    assert(all.take(records.len() as int) =~= records);
    assert(all.skip(records.len() as int) =~= seq![a]);
    assert(seq![a].skip(1) =~= Seq::<Appended>::empty());
    assert(log_bytes(seq![a]) =~= a.bytes()) by {
        assert(log_bytes(seq![a].skip(1)) =~= Seq::<u8>::empty());
    }
}

/// Where records that fit stand one after the other, replay applies them
/// in order and goes on behind them.
pub proof fn lemma_replay_records(
    bytes: Seq<u8>,
    limit: int,
    cursor: int,
    position: int,
    records: Seq<Appended>,
)
    requires
        forall|j: int| 0 <= j < records.len() ==> (#[trigger] records[j]).fits(),
        stands_at(bytes, cursor, log_bytes(records)),
        position + log_bytes(records).len() <= limit,
    ensures
        replay_from(bytes, limit, cursor, position).applied == replayed_all(records) + replay_from(
            bytes,
            limit,
            cursor + log_bytes(records).len(),
            position + log_bytes(records).len(),
        ).applied,
        replay_from(bytes, limit, cursor, position).end == replay_from(
            bytes,
            limit,
            cursor + log_bytes(records).len(),
            position + log_bytes(records).len(),
        ).end,
    decreases records.len(),
{
    if records.len() == 0 {
        assert(replayed_all(records) =~= Seq::empty());
        assert(log_bytes(records).len() == 0);
        assert(replayed_all(records) + replay_from(bytes, limit, cursor, position).applied
            =~= replay_from(bytes, limit, cursor, position).applied);
    } else {
        let a = records[0];
        let rest = records.skip(1);
        let n = a.bytes().len() as int;
        let all = log_bytes(records);
        assert(all == a.bytes() + log_bytes(rest));
        assert(stands_at(bytes, cursor, a.bytes())) by {
            lemma_piece(bytes, cursor, all, 0, n);
            assert(all.subrange(0, n) =~= a.bytes());
        }
        assert(stands_at(bytes, cursor + n, log_bytes(rest))) by {
            lemma_piece(bytes, cursor, all, n, all.len() as int);
            assert(all.subrange(n, all.len() as int) =~= log_bytes(rest));
        }
        lemma_frame_of_record(bytes, cursor, a);
        assert forall|j: int| 0 <= j < rest.len() implies (#[trigger] rest[j]).fits() by {
            assert(rest[j] == records[j + 1]);
        }
        lemma_replay_records(bytes, limit, cursor + n, position + n, rest);
        let next = replay_from(bytes, limit, cursor + n, position + n);
        let here = replay_from(bytes, limit, cursor, position);
        assert(here.applied == seq![a.replayed()] + next.applied);
        assert(replayed_all(records) =~= seq![a.replayed()] + replayed_all(rest));
        let tail = replay_from(bytes, limit, cursor + all.len(), position + all.len());
        assert(here.applied =~= replayed_all(records) + tail.applied);
    }
}

/// A log that holds records that fit, and nothing else, replays as exactly
/// those records, in order, and to the end: as many records are replayed as
/// were appended.
pub proof fn lemma_replay_roundtrip(records: Seq<Appended>)
    requires
        forall|j: int| 0 <= j < records.len() ==> (#[trigger] records[j]).fits(),
    ensures
        replay(log_bytes(records), log_bytes(records).len() as int) == (Replayed {
            applied: replayed_all(records),
            end: ReplayEnd::Complete,
        }),
        replay(log_bytes(records), log_bytes(records).len() as int).applied.len()
            == records.len(),
{
    let bytes = log_bytes(records);
    let limit = bytes.len() as int;
    assert(bytes.subrange(0, limit) =~= bytes);
    lemma_replay_records(bytes, limit, 0, 0, records);
    let tail = replay_from(bytes, limit, limit, limit);
    assert(tail.applied =~= Seq::empty());
    assert(replay(bytes, limit).applied =~= replayed_all(records));
}

/// The table that replay rebuilds from a log of records that fit is the
/// table that the same records give when they are applied in order.
pub proof fn lemma_replay_rebuilds(records: Seq<Appended>, m: Contents, now: u128)
    requires
        forall|j: int| 0 <= j < records.len() ==> (#[trigger] records[j]).fits(),
    ensures
        apply_records(m, replay(log_bytes(records), log_bytes(records).len() as int).applied, now)
            == apply_records(m, replayed_all(records), now),
{
    lemma_replay_roundtrip(records);
}

/// Where one byte of one record of a log was changed, replay applies every
/// record before that one, and none at or after it.
///
/// The one case left out: the byte lies in the key length or the value
/// length, and the bytes that the changed lengths frame happen to carry a
/// checksum that holds. A checksum cannot rule that out.
pub proof fn lemma_corruption_stops_replay(
    records: Seq<Appended>,
    damaged: int,
    corrupted: Seq<u8>,
    at: int,
)
    requires
        forall|j: int| 0 <= j < records.len() ==> (#[trigger] records[j]).fits(),
        0 <= damaged < records.len(),
        corrupted.len() == log_bytes(records).len(),
        log_bytes(records.take(damaged)).len() <= at < log_bytes(records.take(damaged)).len()
            + records[damaged].bytes().len(),
        corrupted[at] != log_bytes(records)[at],
        forall|k: int|
            0 <= k < corrupted.len() && k != at ==> corrupted[k] == log_bytes(records)[k],
        in_length_fields(at - log_bytes(records.take(damaged)).len()) ==> !(frame_at(
            corrupted,
            log_bytes(records.take(damaged)).len() as int,
        ) is Entry),
    ensures
        replay(corrupted, corrupted.len() as int).applied == replayed_all(records.take(damaged)),
        replay(corrupted, corrupted.len() as int).applied.len() == damaged,
        !(replay(corrupted, corrupted.len() as int).end is Complete),
{
    let image = log_bytes(records);
    let limit = image.len() as int;
    let before = records.take(damaged);
    let start = log_bytes(before).len() as int;
    let a = records[damaged];
    let n = a.bytes().len() as int;
    let off = at - start;
    lemma_log_split(records, damaged);
    let after = records.skip(damaged);
    assert(after[0] == a);
    assert(log_bytes(after) == a.bytes() + log_bytes(after.skip(1)));
    assert(image =~= log_bytes(before) + a.bytes() + log_bytes(after.skip(1)));
    lemma_layout(a);
    // The records before the damaged one stand as they were.
    assert(stands_at(corrupted, 0, log_bytes(before))) by {
        assert(corrupted.subrange(0, start) =~= log_bytes(before));
    }
    assert forall|j: int| 0 <= j < before.len() implies (#[trigger] before[j]).fits() by {
        assert(before[j] == records[j]);
    }
    lemma_replay_records(corrupted, limit, 0, 0, before);
    // At the damaged record replay stops.
    let here = replay_from(corrupted, limit, start, start);
    lemma_damaged_frame(corrupted, start, a, off);
    assert(here.applied =~= Seq::empty());
    assert(replay(corrupted, limit).applied =~= replayed_all(before));
}

/// A record of which one byte was changed is not read as a record, unless
/// the byte lies in a length field and the reframed bytes carry a checksum
/// that holds.
proof fn lemma_damaged_frame(bytes: Seq<u8>, start: int, a: Appended, off: int)
    requires
        a.fits(),
        0 <= start,
        start + a.bytes().len() <= bytes.len(),
        0 <= off < a.bytes().len(),
        bytes[start + off] != a.bytes()[off],
        forall|k: int| 0 <= k < a.bytes().len() && k != off ==> bytes[start + k] == a.bytes()[k],
        in_length_fields(off) ==> !(frame_at(bytes, start) is Entry),
    ensures
        !(frame_at(bytes, start) is Entry),
{
    if !in_length_fields(off) {
        let b = a.bytes();
        let n = b.len() as int;
        let k = a.key.len() as int;
        let v = a.value.len() as int;
        let h = a.header();
        let got = header_at(bytes, start);
        lemma_layout(a);
        lemma_auto_spec_u16_to_from_le_bytes();
        lemma_auto_spec_u32_to_from_le_bytes();
        lemma_auto_spec_u64_to_from_le_bytes();
        // The two lengths are read as they were written.
        assert(bytes.subrange(start + 21, start + 23) =~= b.subrange(21, 23));
        assert(bytes.subrange(start + 23, start + 27) =~= b.subrange(23, 27));
        assert(got.key_size == h.key_size);
        assert(got.value_size == h.value_size);
        let data = bytes.subrange(start + 8, start + n);
        if off < 8 {
            // The checksum field was changed, and what it covers was not.
            assert(data =~= a.body());
            let field = bytes.subrange(start, start + 8);
            assert(field[off] != b.subrange(0, 8)[off]);
            assert(field != spec_u64_to_le_bytes(h.crc));
            assert(spec_u64_to_le_bytes(spec_u64_from_le_bytes(field)) == field);
            assert(got.crc != h.crc);
        } else {
            // The checksum field stands, and one byte of what it covers was changed.
            assert(bytes.subrange(start, start + 8) =~= b.subrange(0, 8));
            assert(got.crc == h.crc);
            assert(data[off - 8] != a.body()[off - 8]) by {
                assert(a.body()[off - 8] == b.subrange(8, n)[off - 8]);
            }
            assert forall|j: int| 0 <= j < data.len() && j != off - 8 implies data[j]
                == a.body()[j] by {
                assert(a.body()[j] == b.subrange(8, n)[j]);
            }
            lemma_crc_detects_changed_byte(a.body(), data, off - 8);
        }
    }
}

} // verus!
