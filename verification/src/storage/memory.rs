//! The in-memory table: a fixed array of shards, each a map from key bytes
//! to a value with an optional expiry. A key's shard is a function of its
//! bytes and of the shard count alone.
//!
//! Time is a count of nanoseconds on the table's own monotonic timeline,
//! which starts when the table is made. Every operation that depends on the
//! clock has a twin that takes the reading as an argument; the twin carries
//! the exact contract, and the clock-reading form hands it the reading.

use crate::util::clock::{elapsed_nanos, spec_as_nanos};
use crate::util::text::bytes_eq;
use std::time::{Duration, Instant};
use vstd::prelude::*;
use vstd::slice::slice_to_vec;

verus! {

/// FNV-1a offset basis, 64 bit.
pub const FNV_OFFSET_BASIS: u64 = 14695981039346656037;

/// FNV-1a prime, 64 bit.
pub const FNV_PRIME: u64 = 1099511628211;

/// The shard count of a table made without one.
pub const DEFAULT_PARTITIONS: usize = 8;

/// What an entry holds, as plain values.
pub struct EntryView {
    pub value: Seq<u8>,
    pub expires_at: Option<u128>,
}

/// A stored value and the instant after which it no longer counts, if any.
pub struct Entry {
    pub value: Vec<u8>,
    pub expires_at: Option<u128>,
}

impl View for Entry {
    type V = EntryView;

    open spec fn view(&self) -> EntryView {
        EntryView { value: self.value@, expires_at: self.expires_at }
    }
}

/// A key with its entry.
pub struct Slot {
    pub key: Vec<u8>,
    pub entry: Entry,
}

/// The contents of a table or of one shard.
pub type Contents = Map<Seq<u8>, EntryView>;

/// An entry is expired once the clock has passed its expiry; one without an
/// expiry never is.
pub open spec fn is_expired(expires_at: Option<u128>, now: u128) -> bool {
    match expires_at {
        Some(deadline) => now > deadline,
        None => false,
    }
}

/// The expiry of an entry written at `now` to live for `ttl_nanos`: the sum,
/// held at the top of the timeline where it would pass it.
pub open spec fn expiry_after(now: u128, ttl_nanos: Option<u128>) -> Option<u128> {
    match ttl_nanos {
        Some(ttl) => Some(
            if now + ttl > u128::MAX {
                u128::MAX
            } else {
                (now + ttl) as u128
            },
        ),
        None => None,
    }
}

/// The time to live in nanoseconds that a `Duration` asks for.
pub open spec fn ttl_nanos(ttl: Option<Duration>) -> Option<u128> {
    match ttl {
        Some(d) => Some(spec_as_nanos(d)),
        None => None,
    }
}

/// What a read of `key` at `now` sees: the value of a present entry that has
/// not expired.
pub open spec fn lookup(m: Contents, key: Seq<u8>, now: u128) -> Option<Seq<u8>> {
    if m.contains_key(key) && !is_expired(m[key].expires_at, now) {
        Some(m[key].value)
    } else {
        None
    }
}

/// The keys whose entries are expired at `now`.
pub open spec fn expired_keys(m: Contents, now: u128) -> Set<Seq<u8>> {
    Set::new(|k: Seq<u8>| m.contains_key(k) && is_expired(m[k].expires_at, now))
}

/// The contents once every entry expired at `now` is gone.
pub open spec fn swept(m: Contents, now: u128) -> Contents {
    m.remove_keys(expired_keys(m, now))
}

/// FNV-1a over `key`, continuing from `hash`: each byte is xored in, then
/// the hash is multiplied by the prime, modulo 2^64.
pub open spec fn fnv1a_from(hash: u64, key: Seq<u8>) -> u64
    decreases key.len(),
{
    if key.len() == 0 {
        hash
    } else {
        let prev = fnv1a_from(hash, key.drop_last());
        (((prev ^ (key.last() as u64)) as nat * FNV_PRIME as nat) % 0x1_0000_0000_0000_0000) as u64
    }
}

/// The FNV-1a hash of `key`.
pub open spec fn fnv1a(key: Seq<u8>) -> u64 {
    fnv1a_from(FNV_OFFSET_BASIS, key)
}

/// The shard that holds `key` in a table of `count` shards.
pub open spec fn shard_index(key: Seq<u8>, count: nat) -> nat
    recommends
        count > 0,
{
    (fnv1a(key) as nat) % count
}

/// The keys of a run of slots, in order.
pub open spec fn slot_keys(slots: Seq<Slot>) -> Seq<Seq<u8>> {
    slots.map_values(|s: Slot| s.key@)
}

/// The map that a run of slots with distinct keys stands for.
pub open spec fn slots_map(slots: Seq<Slot>) -> Contents {
    Map::new(
        |k: Seq<u8>| slot_keys(slots).contains(k),
        |k: Seq<u8>| slots[slot_keys(slots).index_of(k)].entry@,
    )
}

proof fn lemma_slots_map_dom(slots: Seq<Slot>)
    ensures
        slots_map(slots).dom() =~= slot_keys(slots).to_set(),
        slots_map(slots).dom().finite(),
        slot_keys(slots).no_duplicates() ==> slots_map(slots).dom().len() == slots.len(),
{
    let keys = slot_keys(slots);
    vstd::seq_lib::seq_to_set_is_finite(keys);
    if keys.no_duplicates() {
        keys.unique_seq_to_set();
    }
}

proof fn lemma_slot_at(slots: Seq<Slot>, i: int)
    requires
        slot_keys(slots).no_duplicates(),
        0 <= i < slots.len(),
    ensures
        slots_map(slots).contains_key(slots[i].key@),
        slots_map(slots)[slots[i].key@] == slots[i].entry@,
{
    let keys = slot_keys(slots);
    assert(keys[i] == slots[i].key@);
    let j = keys.index_of(slots[i].key@);
    assert(keys[j] == keys[i]);
}

proof fn lemma_slots_push(slots: Seq<Slot>, slot: Slot)
    requires
        slot_keys(slots).no_duplicates(),
        !slot_keys(slots).contains(slot.key@),
    ensures
        slot_keys(slots.push(slot)).no_duplicates(),
        slots_map(slots.push(slot)) =~= slots_map(slots).insert(slot.key@, slot.entry@),
{
    let after = slots.push(slot);
    let keys = slot_keys(slots);
    let keys_after = slot_keys(after);
    assert(keys_after =~= keys.push(slot.key@));
    assert forall|i: int, j: int|
        0 <= i < keys_after.len() && 0 <= j < keys_after.len() && i != j implies keys_after[i]
        != keys_after[j] by {
        if i < keys.len() {
            assert(keys[i] == keys_after[i]);
        }
        if j < keys.len() {
            assert(keys[j] == keys_after[j]);
        }
    }
    let inserted = slots_map(slots).insert(slot.key@, slot.entry@);
    assert forall|k: Seq<u8>|
        slots_map(after).contains_key(k) <==> #[trigger] inserted.contains_key(k) by {
        if keys.contains(k) {
            let i = keys.index_of(k);
            assert(keys_after[i] == k);
        }
        if keys_after.contains(k) && k != slot.key@ {
            let i = keys_after.index_of(k);
            assert(keys[i] == k);
        }
        assert(keys_after[keys.len() as int] == slot.key@);
    }
    assert forall|k: Seq<u8>| slots_map(after).contains_key(k) implies #[trigger] slots_map(
        after,
    )[k] == inserted[k] by {
        let i = keys_after.index_of(k);
        lemma_slot_at(after, i);
        if i < keys.len() {
            lemma_slot_at(slots, i);
        }
    }
}

proof fn lemma_slots_update(slots: Seq<Slot>, i: int, slot: Slot)
    requires
        slot_keys(slots).no_duplicates(),
        0 <= i < slots.len(),
        slot.key@ == slots[i].key@,
    ensures
        slot_keys(slots.update(i, slot)).no_duplicates(),
        slots_map(slots.update(i, slot)) =~= slots_map(slots).insert(slot.key@, slot.entry@),
{
    let after = slots.update(i, slot);
    let keys = slot_keys(slots);
    let keys_after = slot_keys(after);
    assert(keys_after =~= keys);
    assert(keys[i] == slot.key@);
    let inserted = slots_map(slots).insert(slot.key@, slot.entry@);
    assert forall|k: Seq<u8>| slots_map(after).contains_key(k) implies #[trigger] slots_map(
        after,
    )[k] == inserted[k] by {
        let j = keys_after.index_of(k);
        lemma_slot_at(after, j);
        lemma_slot_at(slots, j);
    }
}

proof fn lemma_slots_swap_remove(slots: Seq<Slot>, i: int)
    requires
        slot_keys(slots).no_duplicates(),
        0 <= i < slots.len(),
    ensures
        slot_keys(slots.update(i, slots.last()).drop_last()).no_duplicates(),
        slots_map(slots.update(i, slots.last()).drop_last()) =~= slots_map(slots).remove(
            slots[i].key@,
        ),
{
    let after = slots.update(i, slots.last()).drop_last();
    let keys = slot_keys(slots);
    let keys_after = slot_keys(after);
    let last = slots.len() - 1;
    assert forall|a: int| 0 <= a < keys_after.len() implies keys_after[a] == (if a == i {
        keys[last]
    } else {
        keys[a]
    }) by {}
    assert forall|a: int, b: int|
        0 <= a < keys_after.len() && 0 <= b < keys_after.len() && a != b implies keys_after[a]
        != keys_after[b] by {}
    assert(keys[i] == slots[i].key@);
    let removed = slots_map(slots).remove(slots[i].key@);
    assert forall|k: Seq<u8>|
        slots_map(after).contains_key(k) <==> #[trigger] removed.contains_key(k) by {
        if keys_after.contains(k) {
            let a = keys_after.index_of(k);
            if a == i {
                assert(keys[last] == k);
            } else {
                assert(keys[a] == k);
            }
        }
        if keys.contains(k) && k != slots[i].key@ {
            let a = keys.index_of(k);
            if a == last {
                assert(keys_after[i] == k);
            } else {
                assert(keys_after[a] == k);
            }
        }
    }
    assert forall|k: Seq<u8>| slots_map(after).contains_key(k) implies #[trigger] slots_map(
        after,
    )[k] == removed[k] by {
        let a = keys_after.index_of(k);
        lemma_slot_at(after, a);
        if a == i {
            lemma_slot_at(slots, last);
        } else {
            lemma_slot_at(slots, a);
        }
    }
}

/// One shard of the table: a map from key bytes to entries, held as a list
/// in which no key occurs twice.
pub struct Shard {
    slots: Vec<Slot>,
}

impl View for Shard {
    type V = Contents;

    closed spec fn view(&self) -> Contents {
        slots_map(self.slots@)
    }
}

impl Shard {
    /// No key occurs twice.
    pub closed spec fn wf(&self) -> bool {
        slot_keys(self.slots@).no_duplicates()
    }

    /// A well-formed shard holds finitely many entries, as many as it has slots.
    pub proof fn lemma_finite(&self)
        requires
            self.wf(),
        ensures
            self@.dom().finite(),
            self@.dom().len() == self.spec_len(),
    {
        lemma_slots_map_dom(self.slots@);
    }

    /// The number of entries, expired ones included.
    pub closed spec fn spec_len(&self) -> nat {
        self.slots@.len()
    }

    /// An empty shard.
    pub fn new() -> (shard: Shard)
        ensures
            shard.wf(),
            shard@ == Contents::empty(),
    {
        let shard = Shard { slots: Vec::new() };
        assert(shard@ =~= Contents::empty());
        shard
    }

    /// The number of entries, expired ones included.
    pub fn len(&self) -> (n: usize)
        requires
            self.wf(),
        ensures
            n == self.spec_len(),
            n == self@.dom().len(),
    {
        proof {
            self.lemma_finite();
        }
        self.slots.len()
    }

    /// Where `key` is held, if it is.
    fn find(&self, key: &[u8]) -> (found: Option<usize>)
        requires
            self.wf(),
        ensures
            match found {
                Some(i) => i < self.slots.len() && self.slots[i as int].key@ == key@,
                None => !slot_keys(self.slots@).contains(key@),
            },
    {
        let mut i: usize = 0;
        while i < self.slots.len()
            invariant
                i <= self.slots.len(),
                forall|j: int| 0 <= j < i ==> self.slots[j].key@ != key@,
            decreases self.slots.len() - i,
        {
            if bytes_eq(self.slots[i].key.as_slice(), key) {
                return Some(i);
            }
            i = i + 1;
        }
        assert forall|j: int| 0 <= j < slot_keys(self.slots@).len() implies slot_keys(
            self.slots@,
        )[j] != key@ by {
            assert(slot_keys(self.slots@)[j] == self.slots[j].key@);
        }
        None
    }

    /// The value under `key` as a read at `now` sees it: a copy of the value
    /// where the entry is present and has not expired. Nothing is removed.
    pub fn get_at(&self, key: &[u8], now: u128) -> (found: Option<Vec<u8>>)
        requires
            self.wf(),
        ensures
            match found {
                Some(v) => lookup(self@, key@, now) == Some(v@),
                None => lookup(self@, key@, now) is None,
            },
    {
        match self.find(key) {
            Some(i) => {
                proof {
                    lemma_slot_at(self.slots@, i as int);
                }
                let entry = &self.slots[i].entry;
                let expired = match entry.expires_at {
                    Some(deadline) => now > deadline,
                    None => false,
                };
                if expired {
                    None
                } else {
                    Some(slice_to_vec(entry.value.as_slice()))
                }
            },
            None => None,
        }
    }

    /// Put `value` under `key`, to expire after `expires_at` if one is given.
    /// An entry already there is replaced whole.
    pub fn insert(&mut self, key: &[u8], value: Vec<u8>, expires_at: Option<u128>)
        requires
            old(self).wf(),
        ensures
            final(self).wf(),
            final(self)@ == old(self)@.insert(key@, EntryView { value: value@, expires_at }),
    {
        let slot = Slot { key: slice_to_vec(key), entry: Entry { value, expires_at } };
        match self.find(key) {
            Some(i) => {
                proof {
                    lemma_slots_update(self.slots@, i as int, slot);
                }
                self.slots.set(i, slot);
            },
            None => {
                proof {
                    lemma_slots_push(self.slots@, slot);
                }
                self.slots.push(slot);
            },
        }
    }

    /// Take the entry under `key` out, expired or not, and say whether there
    /// was one.
    pub fn remove(&mut self, key: &[u8]) -> (existed: bool)
        requires
            old(self).wf(),
        ensures
            final(self).wf(),
            final(self)@ == old(self)@.remove(key@),
            existed == old(self)@.contains_key(key@),
    {
        match self.find(key) {
            Some(i) => {
                proof {
                    lemma_slots_swap_remove(self.slots@, i as int);
                    lemma_slot_at(self.slots@, i as int);
                }
                let _ = self.slots.swap_remove(i);
                true
            },
            None => {
                assert(self@.remove(key@) =~= self@);
                false
            },
        }
    }

    /// Take out every entry that is expired at `now`, and return how many
    /// there were. An entry without an expiry stays, whatever the time.
    pub fn sweep(&mut self, now: u128) -> (removed: usize)
        requires
            old(self).wf(),
        ensures
            final(self).wf(),
            final(self)@ == swept(old(self)@, now),
            removed == expired_keys(old(self)@, now).len(),
            removed == old(self)@.dom().len() - final(self)@.dom().len(),
    {
        let mut removed: usize = 0;
        let mut i: usize = 0;
        proof {
            lemma_slots_map_dom(self.slots@);
        }
        while i < self.slots.len()
            invariant
                self.wf(),
                old(self).wf(),
                i <= self.slots.len(),
                removed + self.slots.len() == old(self).slots.len(),
                forall|j: int|
                    0 <= j < i ==> !is_expired(#[trigger] self.slots[j].entry.expires_at, now),
                forall|k: Seq<u8>| #[trigger]
                    self@.contains_key(k) ==> old(self)@.contains_key(k) && old(self)@[k]
                        == self@[k],
                forall|k: Seq<u8>|
                    old(self)@.contains_key(k) && !is_expired(old(self)@[k].expires_at, now)
                        ==> #[trigger] self@.contains_key(k),
            decreases self.slots.len() - i,
        {
            let expired = match self.slots[i].entry.expires_at {
                Some(deadline) => now > deadline,
                None => false,
            };
            if expired {
                let ghost before = *self;
                let ghost gone = self.slots[i as int].key@;
                proof {
                    lemma_slots_swap_remove(self.slots@, i as int);
                    lemma_slot_at(self.slots@, i as int);
                    assert(before@.contains_key(gone));
                    assert(is_expired(old(self)@[gone].expires_at, now));
                }
                let _ = self.slots.swap_remove(i);
                removed = removed + 1;
                proof {
                    assert(self@ == before@.remove(gone));
                    assert forall|k: Seq<u8>| #[trigger] self@.contains_key(k) implies old(
                        self,
                    )@.contains_key(k) && old(self)@[k] == self@[k] by {
                        assert(before@.contains_key(k));
                    }
                    assert forall|k: Seq<u8>|
                        old(self)@.contains_key(k) && !is_expired(
                            old(self)@[k].expires_at,
                            now,
                        ) implies #[trigger] self@.contains_key(k) by {
                        assert(before@.contains_key(k));
                    }
                }
            } else {
                i = i + 1;
            }
        }
        proof {
            assert forall|k: Seq<u8>| self@.contains_key(k) implies !is_expired(
                self@[k].expires_at,
                now,
            ) by {
                let j = slot_keys(self.slots@).index_of(k);
                lemma_slot_at(self.slots@, j);
                assert(slot_keys(self.slots@)[j] == self.slots[j].key@);
            }
            assert(self@ =~= swept(old(self)@, now));
            lemma_swept_len(old(self)@, now);
            lemma_slots_map_dom(self.slots@);
            lemma_slots_map_dom(old(self).slots@);
        }
        removed
    }
}

/// Sweeping finitely many entries removes exactly the expired ones: what is
/// left and what was expired add up to what was there.
pub proof fn lemma_swept_len(m: Contents, now: u128)
    requires
        m.dom().finite(),
    ensures
        expired_keys(m, now).finite(),
        swept(m, now).dom().finite(),
        swept(m, now).dom().len() + expired_keys(m, now).len() == m.dom().len(),
{
    let gone = expired_keys(m, now);
    let kept = swept(m, now).dom();
    assert(gone.subset_of(m.dom()));
    vstd::set_lib::lemma_len_subset(gone, m.dom());
    assert(kept.subset_of(m.dom()));
    vstd::set_lib::lemma_len_subset(kept, m.dom());
    assert(kept.disjoint(gone));
    vstd::set_lib::lemma_set_disjoint_lens(kept, gone);
    assert(kept + gone =~= m.dom());
}


/// A value written without a time to live is read back as it was written,
/// at whatever time the read comes.
pub proof fn lemma_set_then_get(
    m: Contents,
    key: Seq<u8>,
    value: Seq<u8>,
    written_at: u128,
    read_at: u128,
)
    ensures
        lookup(
            m.insert(key, EntryView { value, expires_at: expiry_after(written_at, None) }),
            key,
            read_at,
        ) == Some(value),
{
}

/// A key that was set is in the table, so that a delete of it reports
/// `true`; after the delete a read of it finds nothing, at whatever time.
pub proof fn lemma_delete_after_set(m: Contents, key: Seq<u8>, entry: EntryView, read_at: u128)
    ensures
        m.insert(key, entry).contains_key(key),
        !m.insert(key, entry).remove(key).contains_key(key),
        lookup(m.insert(key, entry).remove(key), key, read_at) is None,
{
}

/// Writes, deletes and sweeps leave every other key as it was: a write or a
/// delete touches its own key alone, and a sweep takes out nothing but
/// expired entries. So a key that was never set is never found, and a
/// delete of it reports `false`.
pub proof fn lemma_other_keys_untouched(
    m: Contents,
    key: Seq<u8>,
    other: Seq<u8>,
    entry: EntryView,
    now: u128,
)
    requires
        key != other,
    ensures
        m.insert(other, entry).contains_key(key) == m.contains_key(key),
        m.remove(other).contains_key(key) == m.contains_key(key),
        swept(m, now).contains_key(key) ==> m.contains_key(key),
        !Contents::empty().contains_key(key),
{
}

/// A value written at `written_at` to live for `ttl` is read back up to
/// and including the instant `written_at + ttl`, and reads as absent from
/// then on, whether or not a sweep has run.
pub proof fn lemma_ttl(
    m: Contents,
    key: Seq<u8>,
    value: Seq<u8>,
    written_at: u128,
    ttl: u128,
    read_at: u128,
)
    ensures
        lookup(
            m.insert(key, EntryView { value, expires_at: expiry_after(written_at, Some(ttl)) }),
            key,
            read_at,
        ) == (if read_at <= written_at + ttl {
            Some(value)
        } else {
            None
        }),
{
}

/// A sweep at `now` takes out exactly the entries that are expired at
/// `now`: every other entry stays as it was, and an entry without an expiry
/// stays whatever the time.
pub proof fn lemma_sweep_exact(m: Contents, key: Seq<u8>, now: u128)
    ensures
        swept(m, now).contains_key(key) <==> m.contains_key(key) && !is_expired(
            m[key].expires_at,
            now,
        ),
        swept(m, now).contains_key(key) ==> swept(m, now)[key] == m[key],
        m.contains_key(key) && m[key].expires_at is None ==> swept(m, now).contains_key(key),
{
}

/// A sweep changes no read that comes at or after it: what it removes read
/// as absent already.
pub proof fn lemma_sweep_keeps_reads(m: Contents, key: Seq<u8>, swept_at: u128, read_at: u128)
    requires
        swept_at <= read_at,
    ensures
        lookup(swept(m, swept_at), key, read_at) == lookup(m, key, read_at),
{
}

/// After a sweep at `now` nothing that is left is expired at `now`, so that
/// a second sweep at the same instant removes nothing.
pub proof fn lemma_sweep_idempotent(m: Contents, now: u128)
    ensures
        expired_keys(swept(m, now), now) =~= Set::<Seq<u8>>::empty(),
        swept(swept(m, now), now) =~= swept(m, now),
{
}

/// Whether what a read returned is what the contents hold for it.
pub open spec fn read_is(found: Option<Vec<u8>>, held: Option<Seq<u8>>) -> bool {
    match found {
        Some(v) => held == Some(v@),
        None => held is None,
    }
}

/// A count held at the top of `usize` where it would pass it.
pub open spec fn clamp_count(n: nat) -> usize {
    if n > usize::MAX {
        usize::MAX
    } else {
        n as usize
    }
}

/// The sharded table.
pub struct MemTable {
    partitions: Vec<Shard>,
    origin: Instant,
}

impl View for MemTable {
    type V = Contents;

    closed spec fn view(&self) -> Contents {
        shards_map(self.partitions@)
    }
}

/// The map that an array of shards stands for: a key is looked for in the
/// shard that it hashes to, and nowhere else.
pub closed spec fn shards_map(shards: Seq<Shard>) -> Contents {
    Map::new(
        |k: Seq<u8>| shards[shard_index(k, shards.len()) as int]@.contains_key(k),
        |k: Seq<u8>| shards[shard_index(k, shards.len()) as int]@[k],
    )
}

/// Every shard is well formed and holds only keys that hash to it.
pub closed spec fn shards_wf(shards: Seq<Shard>) -> bool {
    &&& shards.len() > 0
    &&& forall|i: int| 0 <= i < shards.len() ==> (#[trigger] shards[i]).wf()
    &&& forall|i: int, k: Seq<u8>|
        0 <= i < shards.len() && #[trigger] shards[i]@.contains_key(k) ==> shard_index(
            k,
            shards.len(),
        ) == i
}

/// The keys of the first `upto` shards.
spec fn keys_upto(shards: Seq<Shard>, upto: int) -> Set<Seq<u8>> {
    Set::new(
        |k: Seq<u8>| shards_map(shards).contains_key(k) && shard_index(k, shards.len()) < upto,
    )
}

proof fn lemma_shard_index_bound(key: Seq<u8>, count: nat)
    requires
        count > 0,
    ensures
        shard_index(key, count) < count,
{
    let h = fnv1a(key) as nat;
    assert(h % count < count) by (nonlinear_arith)
        requires
            count > 0,
    ;
}

proof fn lemma_keys_upto_finite(shards: Seq<Shard>, upto: int)
    requires
        shards_wf(shards),
        0 <= upto <= shards.len(),
    ensures
        keys_upto(shards, upto).finite(),
    decreases upto,
{
    if upto == 0 {
        assert(keys_upto(shards, upto) =~= Set::empty());
    } else {
        lemma_keys_upto_finite(shards, upto - 1);
        shards[upto - 1].lemma_finite();
        assert(keys_upto(shards, upto) =~= keys_upto(shards, upto - 1) + shards[upto - 1]@.dom())
            by {
            assert forall|k: Seq<u8>| keys_upto(shards, upto).contains(k) == (keys_upto(
                shards,
                upto - 1,
            ) + shards[upto - 1]@.dom()).contains(k) by {
                lemma_shard_index_bound(k, shards.len());
            }
        }
    }
}

proof fn lemma_shards_map_finite(shards: Seq<Shard>)
    requires
        shards_wf(shards),
    ensures
        shards_map(shards).dom().finite(),
{
    lemma_keys_upto_finite(shards, shards.len() as int);
    assert(shards_map(shards).dom() =~= keys_upto(shards, shards.len() as int)) by {
        assert forall|k: Seq<u8>| shards_map(shards).dom().contains(k) == keys_upto(
            shards,
            shards.len() as int,
        ).contains(k) by {
            lemma_shard_index_bound(k, shards.len());
        }
    }
}

/// Replacing one shard by one that differs in a single key that hashes to
/// it changes the table's contents in that key alone.
proof fn lemma_shard_replaced(before: Seq<Shard>, after: Seq<Shard>, idx: int, key: Seq<u8>)
    requires
        shards_wf(before),
        0 <= idx < before.len(),
        idx == shard_index(key, before.len()),
        after == before.update(idx, after[idx]),
        after[idx].wf(),
        forall|k: Seq<u8>|
            k != key ==> (after[idx]@.contains_key(k) <==> before[idx]@.contains_key(k)),
        forall|k: Seq<u8>|
            k != key && before[idx]@.contains_key(k) ==> after[idx]@[k] == before[idx]@[k],
    ensures
        shards_wf(after),
        forall|k: Seq<u8>|
            k != key ==> (shards_map(after).contains_key(k) <==> shards_map(before).contains_key(
                k,
            )),
        forall|k: Seq<u8>|
            k != key && shards_map(before).contains_key(k) ==> shards_map(after)[k] == shards_map(
                before,
            )[k],
        shards_map(after).contains_key(key) <==> after[idx]@.contains_key(key),
        shards_map(after).contains_key(key) ==> shards_map(after)[key] == after[idx]@[key],
{
    assert(after.len() == before.len());
    assert forall|i: int| 0 <= i < after.len() implies (#[trigger] after[i]).wf() by {
        if i != idx {
            assert(after[i] == before[i]);
            assert(before[i].wf());
        }
    }
    assert forall|i: int, k: Seq<u8>|
        0 <= i < after.len() && #[trigger] after[i]@.contains_key(k) implies shard_index(
        k,
        after.len(),
    ) == i by {
        if i != idx {
            assert(after[i] == before[i]);
            assert(before[i]@.contains_key(k));
        } else if k != key {
            assert(before[idx]@.contains_key(k));
        }
    }
    assert forall|k: Seq<u8>| k != key implies (shards_map(after).contains_key(k)
        <==> shards_map(before).contains_key(k)) by {
        lemma_shard_index_bound(k, before.len());
        let i = shard_index(k, before.len()) as int;
        if i != idx {
            assert(after[i] == before[i]);
        }
    }
    assert forall|k: Seq<u8>| k != key && shards_map(before).contains_key(k) implies shards_map(
        after,
    )[k] == shards_map(before)[k] by {
        lemma_shard_index_bound(k, before.len());
        let i = shard_index(k, before.len()) as int;
        if i != idx {
            assert(after[i] == before[i]);
        }
    }
}


/// The keys in the first `upto` shards whose entries are expired at `now`.
spec fn expired_upto(shards: Seq<Shard>, upto: int, now: u128) -> Set<Seq<u8>> {
    Set::new(
        |k: Seq<u8>|
            expired_keys(shards_map(shards), now).contains(k) && shard_index(k, shards.len())
                < upto,
    )
}

/// Replacing one shard by one that holds a part of its keys keeps the table
/// well formed.
proof fn lemma_shard_shrunk(before: Seq<Shard>, after: Seq<Shard>, idx: int)
    requires
        shards_wf(before),
        0 <= idx < before.len(),
        after == before.update(idx, after[idx]),
        after[idx].wf(),
        forall|k: Seq<u8>| after[idx]@.contains_key(k) ==> before[idx]@.contains_key(k),
    ensures
        shards_wf(after),
{
    assert forall|i: int| 0 <= i < after.len() implies (#[trigger] after[i]).wf() by {
        if i != idx {
            assert(after[i] == before[i]);
            assert(before[i].wf());
        }
    }
    assert forall|i: int, k: Seq<u8>|
        0 <= i < after.len() && #[trigger] after[i]@.contains_key(k) implies shard_index(
        k,
        after.len(),
    ) == i by {
        if i != idx {
            assert(after[i] == before[i]);
            assert(before[i]@.contains_key(k));
        } else {
            assert(before[idx]@.contains_key(k));
        }
    }
}

/// The expired keys of one more shard join those counted so far, and none
/// of them was counted before.
proof fn lemma_expired_upto_step(shards: Seq<Shard>, upto: int, now: u128)
    requires
        shards_wf(shards),
        0 <= upto < shards.len(),
        expired_upto(shards, upto, now).finite(),
    ensures
        expired_keys(shards[upto]@, now).finite(),
        expired_upto(shards, upto + 1, now).finite(),
        expired_upto(shards, upto + 1, now).len() == expired_upto(shards, upto, now).len()
            + expired_keys(shards[upto]@, now).len(),
{
    let counted = expired_upto(shards, upto, now);
    let here = expired_keys(shards[upto]@, now);
    shards[upto].lemma_finite();
    lemma_swept_len(shards[upto]@, now);
    assert(counted.disjoint(here));
    vstd::set_lib::lemma_set_disjoint_lens(counted, here);
    assert(expired_upto(shards, upto + 1, now) =~= counted + here) by {
        assert forall|k: Seq<u8>| expired_upto(shards, upto + 1, now).contains(k) == (counted
            + here).contains(k) by {
            lemma_shard_index_bound(k, shards.len());
        }
    }
}

impl MemTable {
    /// The table has at least one shard, every shard is well formed, and
    /// every key sits in the shard that it hashes to.
    pub closed spec fn wf(&self) -> bool {
        shards_wf(self.partitions@)
    }

    /// The number of shards.
    pub closed spec fn spec_partition_count(&self) -> nat {
        self.partitions@.len()
    }

    /// A well-formed table holds finitely many entries.
    pub proof fn lemma_finite(&self)
        requires
            self.wf(),
        ensures
            self@.dom().finite(),
    {
        lemma_shards_map_finite(self.partitions@);
    }

    /// An empty table with the default number of shards.
    pub fn new() -> (table: MemTable)
        ensures
            table.wf(),
            table@ == Contents::empty(),
            table.spec_partition_count() == DEFAULT_PARTITIONS,
    {
        Self::with_partitions(DEFAULT_PARTITIONS)
    }

    /// An empty table with `count` shards. The count never changes.
    pub fn with_partitions(count: usize) -> (table: MemTable)
        requires
            count > 0,
        ensures
            table.wf(),
            table@ == Contents::empty(),
            table.spec_partition_count() == count,
    {
        let mut partitions: Vec<Shard> = Vec::new();
        let mut i: usize = 0;
        while i < count
            invariant
                i <= count,
                partitions@.len() == i,
                forall|j: int| 0 <= j < i ==> (#[trigger] partitions@[j]).wf(),
                forall|j: int| 0 <= j < i ==> (#[trigger] partitions@[j])@ == Contents::empty(),
            decreases count - i,
        {
            partitions.push(Shard::new());
            i = i + 1;
        }
        let table = MemTable { partitions, origin: Instant::now() };
        assert(table@ =~= Contents::empty()) by {
            assert forall|k: Seq<u8>| !table@.contains_key(k) by {
                lemma_shard_index_bound(k, count as nat);
            }
        }
        table
    }

    /// The number of shards.
    pub fn partition_count(&self) -> (count: usize)
        ensures
            count == self.spec_partition_count(),
    {
        self.partitions.len()
    }

    /// The FNV-1a hash of `key`.
    pub fn hash_key(&self, key: &[u8]) -> (hash: u64)
        ensures
            hash == fnv1a(key@),
    {
        let mut hash: u64 = FNV_OFFSET_BASIS;
        let mut i: usize = 0;
        while i < key.len()
            invariant
                i <= key.len(),
                hash == fnv1a_from(FNV_OFFSET_BASIS, key@.take(i as int)),
            decreases key.len() - i,
        {
            proof {
                let next = key@.take(i + 1);
                assert(next.drop_last() =~= key@.take(i as int));
                assert(next.last() == key@[i as int]);
            }
            hash = hash ^ (key[i] as u64);
            hash = hash.wrapping_mul(FNV_PRIME);
            i = i + 1;
        }
        proof {
            assert(key@.take(i as int) =~= key@);
        }
        hash
    }

    /// The shard that holds `key`: its hash modulo the shard count. The same
    /// key bytes select the same shard for as long as the table lives.
    pub fn get_partition_for_key(&self, key: &[u8]) -> (idx: usize)
        requires
            self.wf(),
        ensures
            idx == shard_index(key@, self.spec_partition_count()),
            idx < self.spec_partition_count(),
    {
        let hash = self.hash_key(key);
        let count: u64 = self.partitions.len() as u64;
        proof {
            lemma_shard_index_bound(key@, self.partitions@.len());
        }
        (hash % count) as usize
    }

    /// The reading of the table's clock: nanoseconds since the table was
    /// made, as `Duration::as_nanos` makes them of the time that the clock
    /// says has passed. The table is not touched.
    pub fn now(&self) -> (now: u128)
        ensures
            exists|elapsed: Duration| now == #[trigger] spec_as_nanos(elapsed),
    {
        elapsed_nanos(&self.origin)
    }

    /// The value under `key` as a read at `now` sees it. An expired entry
    /// reads as absent and stays where it is.
    pub fn get_at(&self, key: &[u8], now: u128) -> (found: Option<Vec<u8>>)
        requires
            self.wf(),
        ensures
            read_is(found, lookup(self@, key@, now)),
    {
        let idx = self.get_partition_for_key(key);
        self.partitions[idx].get_at(key, now)
    }

    /// The value under `key` as a read at the clock's present reading sees it.
    pub fn get(&self, key: &[u8]) -> (found: Option<Vec<u8>>)
        requires
            self.wf(),
        ensures
            exists|now: u128| read_is(found, lookup(self@, key@, now)),
            !self@.contains_key(key@) ==> found is None,
            self@.contains_key(key@) && self@[key@].expires_at is None ==> read_is(
                found,
                Some(self@[key@].value),
            ),
    {
        let now = self.now();
        let found = self.get_at(key, now);
        assert(read_is(found, lookup(self@, key@, now)));
        found
    }

    /// Put `value` under `key` with the expiry given, replacing what was there.
    pub fn insert(&mut self, key: &[u8], value: Vec<u8>, expires_at: Option<u128>)
        requires
            old(self).wf(),
        ensures
            final(self).wf(),
            final(self).spec_partition_count() == old(self).spec_partition_count(),
            final(self)@ == old(self)@.insert(key@, EntryView { value: value@, expires_at }),
    {
        let idx = self.get_partition_for_key(key);
        let ghost before = self.partitions@;
        self.partitions[idx].insert(key, value, expires_at);
        proof {
            lemma_shard_replaced(before, self.partitions@, idx as int, key@);
            assert(self@ =~= old(self)@.insert(key@, EntryView { value: value@, expires_at }));
        }
    }

    /// Write `value` under `key` at `now`, to live for `ttl_nanos` where one
    /// is given and without end where none is.
    pub fn set_at(
        &mut self,
        key: &[u8],
        value: Vec<u8>,
        ttl_nanos: Option<u128>,
        now: u128,
    ) -> (done: Result<(), String>)
        requires
            old(self).wf(),
        ensures
            done is Ok,
            final(self).wf(),
            final(self).spec_partition_count() == old(self).spec_partition_count(),
            final(self)@ == old(self)@.insert(
                key@,
                EntryView { value: value@, expires_at: expiry_after(now, ttl_nanos) },
            ),
    {
        let expires_at = match ttl_nanos {
            Some(ttl) => Some(now.saturating_add(ttl)),
            None => None,
        };
        self.insert(key, value, expires_at);
        Ok(())
    }

    /// Write `value` under `key`, to live for `ttl` from the clock's present
    /// reading where one is given.
    pub fn set(&mut self, key: &[u8], value: Vec<u8>, ttl: Option<Duration>) -> (done: Result<
        (),
        String,
    >)
        requires
            old(self).wf(),
        ensures
            done is Ok,
            final(self).wf(),
            final(self).spec_partition_count() == old(self).spec_partition_count(),
            exists|now: u128|
                final(self)@ == old(self)@.insert(
                    key@,
                    EntryView {
                        value: value@,
                        expires_at: #[trigger] expiry_after(now, self::ttl_nanos(ttl)),
                    },
                ),
            ttl is None ==> final(self)@ == old(self)@.insert(
                key@,
                EntryView { value: value@, expires_at: None },
            ),
    {
        let now = self.now();
        let nanos = match ttl {
            Some(d) => Some(d.as_nanos()),
            None => None,
        };
        self.set_at(key, value, nanos, now)
    }

    /// Take the entry under `key` out, expired or not, and say whether there
    /// was one.
    pub fn delete(&mut self, key: &[u8]) -> (existed: Result<bool, String>)
        requires
            old(self).wf(),
        ensures
            existed == Ok::<bool, String>(old(self)@.contains_key(key@)),
            final(self).wf(),
            final(self).spec_partition_count() == old(self).spec_partition_count(),
            final(self)@ == old(self)@.remove(key@),
    {
        let idx = self.get_partition_for_key(key);
        let ghost before = self.partitions@;
        let existed = self.partitions[idx].remove(key);
        proof {
            lemma_shard_replaced(before, self.partitions@, idx as int, key@);
            assert(self@ =~= old(self)@.remove(key@));
        }
        Ok(existed)
    }

    /// `set_at` under the name that replay uses: the write is not logged.
    pub fn recover_set_at(
        &mut self,
        key: &[u8],
        value: Vec<u8>,
        ttl_nanos: Option<u128>,
        now: u128,
    ) -> (done: Result<(), String>)
        requires
            old(self).wf(),
        ensures
            done is Ok,
            final(self).wf(),
            final(self).spec_partition_count() == old(self).spec_partition_count(),
            final(self)@ == old(self)@.insert(
                key@,
                EntryView { value: value@, expires_at: expiry_after(now, ttl_nanos) },
            ),
    {
        self.set_at(key, value, ttl_nanos, now)
    }

    /// `set` under the name that replay uses: the write is not logged.
    pub fn recover_set(&mut self, key: &[u8], value: Vec<u8>, ttl: Option<Duration>) -> (done:
        Result<(), String>)
        requires
            old(self).wf(),
        ensures
            done is Ok,
            final(self).wf(),
            final(self).spec_partition_count() == old(self).spec_partition_count(),
            exists|now: u128|
                final(self)@ == old(self)@.insert(
                    key@,
                    EntryView {
                        value: value@,
                        expires_at: #[trigger] expiry_after(now, self::ttl_nanos(ttl)),
                    },
                ),
            ttl is None ==> final(self)@ == old(self)@.insert(
                key@,
                EntryView { value: value@, expires_at: None },
            ),
    {
        self.set(key, value, ttl)
    }

    /// `delete` under the name that replay uses: the removal is not logged.
    pub fn recover_delete(&mut self, key: &[u8]) -> (existed: Result<bool, String>)
        requires
            old(self).wf(),
        ensures
            existed == Ok::<bool, String>(old(self)@.contains_key(key@)),
            final(self).wf(),
            final(self).spec_partition_count() == old(self).spec_partition_count(),
            final(self)@ == old(self)@.remove(key@),
    {
        self.delete(key)
    }
    /// Take out of every shard the entries that are expired at `now`, and
    /// return how many there were in all. Entries without an expiry stay.
    pub fn gc_at(&mut self, now: u128) -> (removed: usize)
        requires
            old(self).wf(),
        ensures
            final(self).wf(),
            final(self).spec_partition_count() == old(self).spec_partition_count(),
            final(self)@ == swept(old(self)@, now),
            expired_keys(old(self)@, now).finite(),
            removed == clamp_count(expired_keys(old(self)@, now).len()),
    {
        let mut removed: usize = 0;
        let mut i: usize = 0;
        let ghost start = self.partitions@;
        proof {
            assert(expired_upto(start, 0, now) =~= Set::empty());
        }
        while i < self.partitions.len()
            invariant
                start == old(self).partitions@,
                shards_wf(start),
                shards_wf(self.partitions@),
                self.partitions@.len() == start.len(),
                i <= start.len(),
                forall|j: int| i <= j < start.len() ==> self.partitions@[j] == start[j],
                forall|j: int|
                    0 <= j < i ==> (#[trigger] self.partitions@[j])@ == swept(start[j]@, now),
                expired_upto(start, i as int, now).finite(),
                removed == clamp_count(expired_upto(start, i as int, now).len()),
            decreases start.len() - i,
        {
            let ghost before = self.partitions@;
            let n = self.partitions[i].sweep(now);
            proof {
                assert(before[i as int] == start[i as int]);
                assert(start[i as int].wf());
                lemma_shard_shrunk(before, self.partitions@, i as int);
                lemma_expired_upto_step(start, i as int, now);
            }
            removed = removed.saturating_add(n);
            i = i + 1;
        }
        proof {
            assert(expired_upto(start, start.len() as int, now) =~= expired_keys(
                old(self)@,
                now,
            )) by {
                assert forall|k: Seq<u8>|
                    expired_upto(start, start.len() as int, now).contains(k) == expired_keys(
                        old(self)@,
                        now,
                    ).contains(k) by {
                    lemma_shard_index_bound(k, start.len());
                }
            }
            assert(self@ =~= swept(old(self)@, now)) by {
                assert forall|k: Seq<u8>| self@.contains_key(k) == swept(
                    old(self)@,
                    now,
                ).contains_key(k) by {
                    lemma_shard_index_bound(k, start.len());
                }
                assert forall|k: Seq<u8>| self@.contains_key(k) implies self@[k] == swept(
                    old(self)@,
                    now,
                )[k] by {
                    lemma_shard_index_bound(k, start.len());
                }
            }
        }
        removed
    }

    /// Take out the entries that are expired at the clock's present reading,
    /// and return how many there were.
    pub fn gc(&mut self) -> (removed: usize)
        requires
            old(self).wf(),
        ensures
            final(self).wf(),
            final(self).spec_partition_count() == old(self).spec_partition_count(),
            exists|now: u128|
                final(self)@ == #[trigger] swept(old(self)@, now) && removed == clamp_count(
                    expired_keys(old(self)@, now).len(),
                ),
    {
        let now = self.now();
        let removed = self.gc_at(now);
        assert(self@ == swept(old(self)@, now));
        removed
    }
}

} // verus!
