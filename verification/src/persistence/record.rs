//! The record format of the append-only log.
//!
//! A log is a flat run of records from offset 0, with nothing before the
//! first. A record is a header of 35 bytes, then the key, then the value.
//! The header's fields, in order, integers little-endian:
//!
//! | bytes  | field                                              |
//! |--------|----------------------------------------------------|
//! | 0..8   | checksum of every byte of the record after itself  |
//! | 8..12  | size of the whole record                           |
//! | 12     | command: 1 for a set, 2 for a delete               |
//! | 13..21 | creation time, milliseconds since the Unix epoch   |
//! | 21..23 | key length                                         |
//! | 23..27 | value length, zero for a delete                    |
//! | 27..35 | time to live in milliseconds, zero for none        |

use crate::util::crc64::{calculate_crc, spec_crc};
use vstd::bytes::{
    spec_u16_from_le_bytes, spec_u16_to_le_bytes, spec_u32_from_le_bytes, spec_u32_to_le_bytes,
    spec_u64_from_le_bytes, spec_u64_to_le_bytes, u16_from_le_bytes, u16_to_le_bytes,
    u32_from_le_bytes, u32_to_le_bytes, u64_from_le_bytes, u64_to_le_bytes,
};
use vstd::prelude::*;
use vstd::slice::slice_subrange;

verus! {

/// The length of a record's header.
pub const HEADER_SIZE: usize = 35;

/// The length of the checksum field, with which a record starts.
pub const CRC_SIZE: usize = 8;

/// The longest key that a record can hold.
pub const MAX_KEY_LEN: usize = 65535;

/// The longest value that a record can hold.
pub const MAX_VALUE_LEN: u64 = 0xFFFF_FFFF;

/// The command tag of a set.
pub const TAG_SET: u8 = 1;

/// The command tag of a delete.
pub const TAG_DELETE: u8 = 2;

/// Why the log refused an append or gave up a replay.
#[derive(Clone, Copy, Debug, PartialEq, Eq, Structural)]
pub enum AofError {
    /// The key is longer than the key length field can say.
    KeyTooLarge,
    /// The value is longer than the value length field can say.
    ValueTooLarge,
    /// The record would end beyond the last offset that the log can count.
    LogFull,
    /// A record declares a size smaller than its own header.
    Corrupted,
    /// The log ends inside a record.
    UnexpectedEof,
    /// A record whose checksum holds carries a command that is neither a
    /// set nor a delete.
    UnknownCommand,
}

/// A log error in words.
pub open spec fn error_text(e: AofError) -> Seq<char> {
    match e {
        AofError::KeyTooLarge => "Key too large"@,
        AofError::ValueTooLarge => "Value too large"@,
        AofError::LogFull => "Log offset overflow"@,
        AofError::Corrupted => "Corrupted AOF entry"@,
        AofError::UnexpectedEof => "failed to fill whole buffer"@,
        AofError::UnknownCommand => "Unknown command type"@,
    }
}

impl AofError {
    /// The error in words.
    pub fn message(&self) -> (text: String)
        ensures
            text@ == error_text(*self),
    {
        match self {
            AofError::KeyTooLarge => "Key too large".to_string(),
            AofError::ValueTooLarge => "Value too large".to_string(),
            AofError::LogFull => "Log offset overflow".to_string(),
            AofError::Corrupted => "Corrupted AOF entry".to_string(),
            AofError::UnexpectedEof => "failed to fill whole buffer".to_string(),
            AofError::UnknownCommand => "Unknown command type".to_string(),
        }
    }
}

/// The two commands that a record can carry.
#[derive(Clone, Copy, Debug, PartialEq, Eq, Structural)]
pub enum CommandType {
    /// Put a value under a key.
    SetKey,
    /// Take a key out.
    DeleteKey,
}

/// The tag that stands for a command in a record.
pub open spec fn tag_of(cmd: CommandType) -> u8 {
    match cmd {
        CommandType::SetKey => TAG_SET,
        CommandType::DeleteKey => TAG_DELETE,
    }
}

/// The command that a tag stands for, if it stands for one.
pub open spec fn command_of(tag: u8) -> Option<CommandType> {
    if tag == TAG_SET {
        Some(CommandType::SetKey)
    } else if tag == TAG_DELETE {
        Some(CommandType::DeleteKey)
    } else {
        None
    }
}

impl CommandType {
    /// The tag that stands for the command in a record.
    pub fn tag(&self) -> (tag: u8)
        ensures
            tag == tag_of(*self),
            command_of(tag) == Some(*self),
    {
        match self {
            CommandType::SetKey => TAG_SET,
            CommandType::DeleteKey => TAG_DELETE,
        }
    }

    /// The command that `tag` stands for, if it stands for one.
    pub fn from_tag(tag: u8) -> (cmd: Option<CommandType>)
        ensures
            cmd == command_of(tag),
    {
        if tag == TAG_SET {
            Some(CommandType::SetKey)
        } else if tag == TAG_DELETE {
            Some(CommandType::DeleteKey)
        } else {
            None
        }
    }
}

/// The header of a record.
#[derive(Clone, Copy, Debug, PartialEq, Eq, Structural)]
pub struct EntryHeader {
    /// Checksum of every byte of the record after this field.
    pub crc: u64,
    /// Size of the whole record, header included.
    pub size: u32,
    /// Command tag.
    pub cmd_type: u8,
    /// Creation time, milliseconds since the Unix epoch.
    pub timestamp: u64,
    /// Length of the key.
    pub key_size: u16,
    /// Length of the value.
    pub value_size: u32,
    /// Time to live in milliseconds; zero for none.
    pub ttl_ms: u64,
}

/// The header's bytes after the checksum: 27 of them.
pub open spec fn header_tail(h: EntryHeader) -> Seq<u8> {
    spec_u32_to_le_bytes(h.size) + seq![h.cmd_type] + spec_u64_to_le_bytes(h.timestamp)
        + spec_u16_to_le_bytes(h.key_size) + spec_u32_to_le_bytes(h.value_size)
        + spec_u64_to_le_bytes(h.ttl_ms)
}

/// The header's bytes: the checksum, then the rest.
pub open spec fn header_bytes(h: EntryHeader) -> Seq<u8> {
    spec_u64_to_le_bytes(h.crc) + header_tail(h)
}

/// The header that the 35 bytes of `bytes` from `at` on spell.
pub open spec fn header_at(bytes: Seq<u8>, at: int) -> EntryHeader
    recommends
        0 <= at,
        at + HEADER_SIZE <= bytes.len(),
{
    EntryHeader {
        crc: spec_u64_from_le_bytes(bytes.subrange(at, at + 8)),
        size: spec_u32_from_le_bytes(bytes.subrange(at + 8, at + 12)),
        cmd_type: bytes[at + 12],
        timestamp: spec_u64_from_le_bytes(bytes.subrange(at + 13, at + 21)),
        key_size: spec_u16_from_le_bytes(bytes.subrange(at + 21, at + 23)),
        value_size: spec_u32_from_le_bytes(bytes.subrange(at + 23, at + 27)),
        ttl_ms: spec_u64_from_le_bytes(bytes.subrange(at + 27, at + 35)),
    }
}

/// The size field of a record with such a key and value: the length of the
/// whole record, of which the field keeps the low 32 bits.
pub open spec fn size_field(key_len: nat, value_len: nat) -> u32 {
    ((HEADER_SIZE + key_len + value_len) % 0x1_0000_0000) as u32
}

/// The header of a record before its checksum is known.
pub open spec fn blank_header(
    cmd: CommandType,
    timestamp: u64,
    key: Seq<u8>,
    value: Seq<u8>,
    ttl_ms: u64,
) -> EntryHeader {
    EntryHeader {
        crc: 0,
        size: size_field(key.len(), value.len()),
        cmd_type: tag_of(cmd),
        timestamp,
        key_size: key.len() as u16,
        value_size: value.len() as u32,
        ttl_ms,
    }
}

/// Every byte of a record after its checksum: what the checksum covers.
pub open spec fn record_body(
    cmd: CommandType,
    timestamp: u64,
    key: Seq<u8>,
    value: Seq<u8>,
    ttl_ms: u64,
) -> Seq<u8> {
    header_tail(blank_header(cmd, timestamp, key, value, ttl_ms)) + key + value
}

/// The bytes of a record: the checksum of the body, then the body.
pub open spec fn record_bytes(
    cmd: CommandType,
    timestamp: u64,
    key: Seq<u8>,
    value: Seq<u8>,
    ttl_ms: u64,
) -> Seq<u8> {
    let body = record_body(cmd, timestamp, key, value, ttl_ms);
    spec_u64_to_le_bytes(spec_crc(body)) + body
}

/// The error with which a key and a value of these lengths are refused, if
/// they are: the key is looked at first.
pub open spec fn size_error(key_len: nat, value_len: nat) -> Option<AofError> {
    if key_len > MAX_KEY_LEN {
        Some(AofError::KeyTooLarge)
    } else if value_len > MAX_VALUE_LEN {
        Some(AofError::ValueTooLarge)
    } else {
        None
    }
}

/// The header tail has 27 bytes, whatever the fields.
pub proof fn lemma_header_tail_len(h: EntryHeader)
    ensures
        header_tail(h).len() == HEADER_SIZE - CRC_SIZE,
        header_bytes(h).len() == HEADER_SIZE,
{
    vstd::bytes::lemma_auto_spec_u16_to_from_le_bytes();
    vstd::bytes::lemma_auto_spec_u32_to_from_le_bytes();
    vstd::bytes::lemma_auto_spec_u64_to_from_le_bytes();
}

impl EntryHeader {
    /// Append the header's bytes after the checksum to `buf`.
    pub fn write_tail(&self, buf: &mut Vec<u8>)
        ensures
            final(buf)@ == old(buf)@ + header_tail(*self),
    {
        let size = u32_to_le_bytes(self.size);
        let timestamp = u64_to_le_bytes(self.timestamp);
        let key_size = u16_to_le_bytes(self.key_size);
        let value_size = u32_to_le_bytes(self.value_size);
        let ttl_ms = u64_to_le_bytes(self.ttl_ms);
        buf.extend_from_slice(size.as_slice());
        buf.push(self.cmd_type);
        buf.extend_from_slice(timestamp.as_slice());
        buf.extend_from_slice(key_size.as_slice());
        buf.extend_from_slice(value_size.as_slice());
        buf.extend_from_slice(ttl_ms.as_slice());
        assert(buf@ =~= old(buf)@ + header_tail(*self));
    }

    /// Read the header that starts at `at` in `bytes`.
    pub fn read(bytes: &[u8], at: usize) -> (header: EntryHeader)
        requires
            at + HEADER_SIZE <= bytes@.len(),
        ensures
            header == header_at(bytes@, at as int),
    {
        let len = bytes.len();
        assert(at + HEADER_SIZE <= len);
        EntryHeader {
            crc: u64_from_le_bytes(slice_subrange(bytes, at, at + 8)),
            size: u32_from_le_bytes(slice_subrange(bytes, at + 8, at + 12)),
            cmd_type: bytes[at + 12],
            timestamp: u64_from_le_bytes(slice_subrange(bytes, at + 13, at + 21)),
            key_size: u16_from_le_bytes(slice_subrange(bytes, at + 21, at + 23)),
            value_size: u32_from_le_bytes(slice_subrange(bytes, at + 23, at + 27)),
            ttl_ms: u64_from_le_bytes(slice_subrange(bytes, at + 27, at + 35)),
        }
    }
}

/// Build the record for `cmd` on `key` and `value`, stamped `timestamp`: the
/// header with its checksum, the key, the value. A key or a value too long
/// for its length field is refused, the key first.
pub fn encode_record(
    cmd: CommandType,
    timestamp: u64,
    key: &[u8],
    value: &[u8],
    ttl_ms: u64,
) -> (record: Result<Vec<u8>, AofError>)
    ensures
        match record {
            Ok(bytes) => size_error(key@.len(), value@.len()) is None && bytes@ == record_bytes(
                cmd,
                timestamp,
                key@,
                value@,
                ttl_ms,
            ) && bytes@.len() == HEADER_SIZE + key@.len() + value@.len(),
            Err(e) => size_error(key@.len(), value@.len()) == Some(e),
        },
{
    if key.len() > MAX_KEY_LEN {
        return Err(AofError::KeyTooLarge);
    }
    if value.len() as u64 > MAX_VALUE_LEN {
        return Err(AofError::ValueTooLarge);
    }
    let total: u64 = HEADER_SIZE as u64 + key.len() as u64 + value.len() as u64;
    let header = EntryHeader {
        crc: 0,
        size: (total % 0x1_0000_0000) as u32,
        cmd_type: cmd.tag(),
        timestamp,
        key_size: key.len() as u16,
        value_size: value.len() as u32,
        ttl_ms,
    };
    assert(header == blank_header(cmd, timestamp, key@, value@, ttl_ms));
    // The whole record with the checksum still blank.
    let mut buf: Vec<u8> = Vec::new();
    let mut k: usize = 0;
    while k < CRC_SIZE
        invariant
            k <= CRC_SIZE,
            buf@.len() == k,
        decreases CRC_SIZE - k,
    {
        buf.push(0);
        k = k + 1;
    }
    let ghost blank = buf@;
    header.write_tail(&mut buf);
    buf.extend_from_slice(key);
    buf.extend_from_slice(value);
    let ghost body = record_body(cmd, timestamp, key@, value@, ttl_ms);
    proof {
        lemma_header_tail_len(header);
        assert(buf@ =~= blank + body);
        assert(buf@.subrange(CRC_SIZE as int, buf@.len() as int) =~= body);
    }
    // The checksum covers every byte after itself; then it takes its place.
    let crc = calculate_crc(slice_subrange(buf.as_slice(), CRC_SIZE, buf.len()));
    let crc_bytes = u64_to_le_bytes(crc);
    let mut i: usize = 0;
    while i < CRC_SIZE
        invariant
            i <= CRC_SIZE,
            crc_bytes@.len() == CRC_SIZE,
            buf@.len() == CRC_SIZE + body.len(),
            buf@.subrange(CRC_SIZE as int, buf@.len() as int) == body,
            forall|j: int| 0 <= j < i ==> buf@[j] == crc_bytes@[j],
        decreases CRC_SIZE - i,
    {
        let ghost before = buf@;
        buf.set(i, crc_bytes[i]);
        assert(buf@.subrange(CRC_SIZE as int, buf@.len() as int) =~= before.subrange(
            CRC_SIZE as int,
            before.len() as int,
        ));
        i = i + 1;
    }
    assert(buf@ =~= record_bytes(cmd, timestamp, key@, value@, ttl_ms));
    Ok(buf)
}

} // verus!
