//! The retrieval cache: a bounded store of fetched source bytes, addressed by
//! a 64-bit key that is derived from the source locator, with strict
//! least-recently-used eviction.
//!
//! The key is a hash of the locator and nothing else. Two locators with the
//! same hash share one slot: the bytes that were stored last are what both
//! of them find.

use vstd::prelude::*;
use vstd::std_specs::hash::DefaultHasherAdditionalSpecFns;
use vstd::utf8::encode_utf8;
use std::collections::hash_map::DefaultHasher;
use std::hash::Hasher;

verus! {

/// `lru::LruCache`, carried through as it is.
#[verifier::external_type_specification]
#[verifier::external_body]
#[verifier::reject_recursive_types(K)]
#[verifier::reject_recursive_types(V)]
#[verifier::reject_recursive_types(S)]
pub struct ExLruCache<K, V, S>(lru::LruCache<K, V, S>);

/// `lru::DefaultHasher`: the hasher that an `LruCache` has where none is
/// named.
#[verifier::external_type_specification]
#[verifier::external_body]
pub struct ExLruHasher(lru::DefaultHasher);

/// What an `lru::LruCache` holds: its entries from the most recently used
/// to the least recently used, as `LruCache::iter` walks them.
pub uninterp spec fn lru_entries(cache: lru::LruCache<u64, Vec<u8>>) -> Seq<(u64, Seq<u8>)>;

/// The number of entries that an `lru::LruCache` was made to hold: what
/// `LruCache::cap` returns.
pub uninterp spec fn lru_cap(cache: lru::LruCache<u64, Vec<u8>>) -> nat;

/// Whether some entry has the key.
pub open spec fn stored(entries: Seq<(u64, Seq<u8>)>, key: u64) -> bool {
    exists|i: int| 0 <= i < entries.len() && (#[trigger] entries[i]).0 == key
}

/// The place of an entry that has the key.
pub open spec fn slot(entries: Seq<(u64, Seq<u8>)>, key: u64) -> int {
    choose|i: int| 0 <= i < entries.len() && (#[trigger] entries[i]).0 == key
}

/// The bytes stored under the key.
pub open spec fn value_of(entries: Seq<(u64, Seq<u8>)>, key: u64) -> Option<Seq<u8>> {
    if stored(entries, key) {
        Some(entries[slot(entries, key)].1)
    } else {
        None
    }
}

/// The entries after the key was looked up: its entry, if there is one, has
/// moved to the front.
pub open spec fn touched(entries: Seq<(u64, Seq<u8>)>, key: u64) -> Seq<(u64, Seq<u8>)> {
    if stored(entries, key) {
        seq![entries[slot(entries, key)]] + entries.remove(slot(entries, key))
    } else {
        entries
    }
}

/// The entries after bytes were stored under the key. A key that is there is
/// given the new bytes and moves to the front. A new key goes to the front,
/// and where the cache is full the entry at the back leaves for it.
pub open spec fn inserted(
    entries: Seq<(u64, Seq<u8>)>,
    capacity: nat,
    key: u64,
    data: Seq<u8>,
) -> Seq<(u64, Seq<u8>)> {
    if stored(entries, key) {
        seq![(key, data)] + entries.remove(slot(entries, key))
    } else if entries.len() == capacity {
        seq![(key, data)] + entries.drop_last()
    } else {
        seq![(key, data)] + entries
    }
}

/// No key occurs twice.
pub open spec fn distinct(entries: Seq<(u64, Seq<u8>)>) -> bool {
    forall|i: int, j: int|
        0 <= i < j < entries.len() ==> (#[trigger] entries[i]).0 != (#[trigger] entries[j]).0
}

/// The most entries that a cache can be made for.
pub const MAX_CAPACITY: usize = 1048576;

/// Calls `LruCache::new`.
///
/// Trusted: the new cache is empty and was made for `capacity` entries. The
/// call makes room for all of them at once, and zero is no capacity; the
/// precondition leaves out both what is too much and zero.
#[verifier::external_body]
fn lru_new(capacity: usize) -> (cache: lru::LruCache<u64, Vec<u8>>)
    requires
        0 < capacity <= MAX_CAPACITY,
    ensures
        lru_entries(cache) == Seq::<(u64, Seq<u8>)>::empty(),
        lru_cap(cache) == capacity,
{
    lru::LruCache::new(core::num::NonZeroUsize::new(capacity).unwrap())
}

/// Calls `LruCache::get` and copies what it found.
///
/// Trusted: an entry with the key moves to the front and its bytes are
/// returned; without one nothing changes and nothing is returned.
#[verifier::external_body]
fn lru_get(cache: &mut lru::LruCache<u64, Vec<u8>>, key: u64) -> (r: Option<Vec<u8>>)
    ensures
        lru_cap(*final(cache)) == lru_cap(*old(cache)),
        lru_entries(*final(cache)) == touched(lru_entries(*old(cache)), key),
        match r {
            Some(data) => value_of(lru_entries(*old(cache)), key) == Some(data@),
            None => !stored(lru_entries(*old(cache)), key),
        },
{
    cache.get(&key).cloned()
}

/// Calls `LruCache::put`.
///
/// Trusted: the entries change as `inserted` says, and the bytes that the
/// key had before are returned.
#[verifier::external_body]
fn lru_put(cache: &mut lru::LruCache<u64, Vec<u8>>, key: u64, data: Vec<u8>) -> (r: Option<
    Vec<u8>,
>)
    ensures
        lru_cap(*final(cache)) == lru_cap(*old(cache)),
        lru_entries(*final(cache)) == inserted(
            lru_entries(*old(cache)),
            lru_cap(*old(cache)),
            key,
            data@,
        ),
        match r {
            Some(before) => value_of(lru_entries(*old(cache)), key) == Some(before@),
            None => !stored(lru_entries(*old(cache)), key),
        },
{
    cache.put(key, data)
}

/// The key under which the bytes of a locator are stored: the standard
/// hasher's digest of the locator's UTF-8 bytes and one closing byte.
pub open spec fn locator_key(locator: Seq<char>) -> u64 {
    DefaultHasher::spec_finish(seq![encode_utf8(locator), seq![255u8]])
}

/// The source could not be fetched.
#[derive(Clone, Copy, Debug, PartialEq, Eq, Structural)]
pub struct SourceFetchError;

/// What a lookup found.
#[derive(Clone, Debug, PartialEq, Eq)]
pub enum Lookup {
    /// The bytes were in the cache.
    Hit(Vec<u8>),
    /// Nothing was stored under the locator's key, which is handed out so
    /// that what is fetched can be stored under it.
    Miss(u64),
}

/// A bounded least-recently-used cache of fetched source bytes.
pub struct RetrievalCache {
    store: lru::LruCache<u64, Vec<u8>>,
}

impl RetrievalCache {
    /// The entries, from the most recently used to the least recently used.
    pub closed spec fn entries(&self) -> Seq<(u64, Seq<u8>)> {
        lru_entries(self.store)
    }

    /// The number of entries that the cache may hold.
    pub closed spec fn capacity(&self) -> nat {
        lru_cap(self.store)
    }

    /// No key is stored twice and the capacity is kept.
    pub open spec fn wf(&self) -> bool {
        &&& 0 < self.capacity()
        &&& self.entries().len() <= self.capacity()
        &&& distinct(self.entries())
    }

    /// An empty cache for `capacity` entries, or nothing where `capacity` is
    /// zero or more than [`MAX_CAPACITY`].
    pub fn new(capacity: usize) -> (r: Option<RetrievalCache>)
        ensures
            match r {
                Some(cache) => 0 < capacity <= MAX_CAPACITY && cache.wf() && cache.capacity()
                    == capacity && cache.entries() == Seq::<(u64, Seq<u8>)>::empty(),
                None => capacity == 0 || capacity > MAX_CAPACITY,
            },
    {
        if capacity == 0 || capacity > MAX_CAPACITY {
            None
        } else {
            Some(RetrievalCache { store: lru_new(capacity) })
        }
    }

    /// The key of a locator.
    pub fn key_for(locator: &str) -> (key: u64)
        ensures
            key == locator_key(locator@),
    {
        let mut hasher = DefaultHasher::new();
        hasher.write(locator.as_bytes());
        let closing: Vec<u8> = vec![255u8];
        hasher.write(closing.as_slice());
        assert(closing@ =~= seq![255u8]);
        assert(hasher@ =~= seq![encode_utf8(locator@), seq![255u8]]);
        hasher.finish()
    }

    /// The bytes stored under `key`, which thereby becomes the most recently
    /// used.
    pub fn get(&mut self, key: u64) -> (r: Option<Vec<u8>>)
        requires
            old(self).wf(),
        ensures
            final(self).wf(),
            final(self).capacity() == old(self).capacity(),
            final(self).entries() == touched(old(self).entries(), key),
            match r {
                Some(data) => value_of(old(self).entries(), key) == Some(data@),
                None => !stored(old(self).entries(), key),
            },
    {
        proof {
            lemma_touched(self.entries(), key);
        }
        lru_get(&mut self.store, key)
    }

    /// Stores `data` under `key` as the most recently used entry. Where the
    /// key is new and the cache is full, the least recently used entry
    /// leaves.
    pub fn put(&mut self, key: u64, data: Vec<u8>)
        requires
            old(self).wf(),
        ensures
            final(self).wf(),
            final(self).capacity() == old(self).capacity(),
            final(self).entries() == inserted(
                old(self).entries(),
                old(self).capacity(),
                key,
                data@,
            ),
    {
        proof {
            lemma_inserted(self.entries(), self.capacity(), key, data@);
        }
        let _ = lru_put(&mut self.store, key, data);
    }

    /// Looks the locator up. A hit hands out the bytes and refreshes the
    /// entry; a miss leaves the cache as it is.
    pub fn lookup(&mut self, locator: &str) -> (r: Lookup)
        requires
            old(self).wf(),
        ensures
            final(self).wf(),
            final(self).capacity() == old(self).capacity(),
            final(self).entries() == touched(old(self).entries(), locator_key(locator@)),
            match r {
                Lookup::Hit(data) => value_of(old(self).entries(), locator_key(locator@))
                    == Some(data@),
                Lookup::Miss(key) => key == locator_key(locator@) && !stored(
                    old(self).entries(),
                    key,
                ) && final(self).entries() == old(self).entries(),
            },
    {
        let key = RetrievalCache::key_for(locator);
        match self.get(key) {
            Some(data) => Lookup::Hit(data),
            None => Lookup::Miss(key),
        }
    }

    /// The bytes of the source at `locator`: those in the cache where there
    /// are any, else those that `fetch` gives, which are then cached. Where
    /// `fetch` gives nothing, that is reported and nothing is cached.
    pub fn get_or_fetch<F: FnOnce(&str) -> Option<Vec<u8>>>(
        &mut self,
        locator: &str,
        fetch: F,
    ) -> (r: Result<Vec<u8>, SourceFetchError>)
        requires
            old(self).wf(),
            call_requires(fetch, (locator,)),
        ensures
            final(self).wf(),
            final(self).capacity() == old(self).capacity(),
            match value_of(old(self).entries(), locator_key(locator@)) {
                Some(data) => r matches Ok(out) && out@ == data && final(self).entries()
                    == touched(old(self).entries(), locator_key(locator@)),
                None => match r {
                    Ok(out) => call_ensures(fetch, (locator,), Some(out))
                        && final(self).entries() == inserted(
                        old(self).entries(),
                        old(self).capacity(),
                        locator_key(locator@),
                        out@,
                    ),
                    Err(_) => call_ensures(fetch, (locator,), None::<Vec<u8>>)
                        && final(self).entries() == old(self).entries(),
                },
            },
    {
        match self.lookup(locator) {
            Lookup::Hit(data) => Ok(data),
            Lookup::Miss(key) => match fetch(locator) {
                Some(data) => {
                    let copy = data.clone();
                    self.put(key, copy);
                    Ok(data)
                },
                None => Err(SourceFetchError),
            },
        }
    }

    /// Ends a miss with what the fetch gave. Fetched bytes are stored under
    /// `key` and handed out; a failed fetch is reported and leaves the cache
    /// as it is.
    pub fn settle(&mut self, key: u64, fetched: Option<Vec<u8>>) -> (r: Result<
        Vec<u8>,
        SourceFetchError,
    >)
        requires
            old(self).wf(),
        ensures
            final(self).wf(),
            final(self).capacity() == old(self).capacity(),
            match fetched {
                Some(data) => r matches Ok(out) && out@ == data@ && final(self).entries()
                    == inserted(old(self).entries(), old(self).capacity(), key, data@),
                None => r is Err && final(self).entries() == old(self).entries(),
            },
    {
        match fetched {
            Some(data) => {
                let out = data.clone();
                self.put(key, data);
                Ok(out)
            },
            None => Err(SourceFetchError),
        }
    }
}

/// Moving an entry to the front keeps the keys, the bytes and the number of
/// entries.
pub proof fn lemma_touched(entries: Seq<(u64, Seq<u8>)>, key: u64)
    requires
        distinct(entries),
    ensures
        distinct(touched(entries, key)),
        touched(entries, key).len() == entries.len(),
        forall|k: u64| value_of(touched(entries, key), k) == value_of(entries, k),
        stored(entries, key) ==> touched(entries, key)[0].0 == key,
{
    let after = touched(entries, key);
    if stored(entries, key) {
        let at = slot(entries, key);
        assert forall|i: int| 0 < i < after.len() implies after[i] == entries[if i <= at {
            i - 1
        } else {
            i
        }] by {}
        assert forall|k: u64| value_of(after, k) == value_of(entries, k) by {
            lemma_value_moved(entries, at, k);
        }
    }
}

/// Where the entry at `at` moves to the front, every key keeps its bytes.
proof fn lemma_value_moved(entries: Seq<(u64, Seq<u8>)>, at: int, k: u64)
    requires
        distinct(entries),
        0 <= at < entries.len(),
    ensures
        value_of(seq![entries[at]] + entries.remove(at), k) == value_of(entries, k),
        distinct(seq![entries[at]] + entries.remove(at)),
{
    let after = seq![entries[at]] + entries.remove(at);
    assert forall|i: int| 0 <= i < after.len() implies after[i] == entries[if i == 0 {
        at
    } else if i <= at {
        i - 1
    } else {
        i
    }] by {}
    if stored(entries, k) {
        let i = slot(entries, k);
        let j = if i == at {
            0
        } else if i < at {
            i + 1
        } else {
            i
        };
        assert(after[j].0 == k);
        let found = slot(after, k);
        assert(after[found].0 == k);
    } else {
        if stored(after, k) {
            let found = slot(after, k);
            assert(after[found].0 == k);
        }
    }
}

/// Storing keeps every key at most once and never outgrows the capacity; the
/// stored bytes are found under the key, and every other key that stays
/// keeps its bytes.
pub proof fn lemma_inserted(entries: Seq<(u64, Seq<u8>)>, capacity: nat, key: u64, data: Seq<u8>)
    requires
        distinct(entries),
        0 < capacity,
        entries.len() <= capacity,
    ensures
        distinct(inserted(entries, capacity, key, data)),
        inserted(entries, capacity, key, data).len() <= capacity,
        inserted(entries, capacity, key, data)[0] == (key, data),
        value_of(inserted(entries, capacity, key, data), key) == Some(data),
        forall|k: u64|
            k != key && stored(inserted(entries, capacity, key, data), k) ==> value_of(
                inserted(entries, capacity, key, data),
                k,
            ) == value_of(entries, k),
{
    let after = inserted(entries, capacity, key, data);
    assert(after[0].0 == key);
    if stored(entries, key) {
        let at = slot(entries, key);
        assert forall|i: int| 0 < i < after.len() implies after[i] == entries[if i <= at {
            i - 1
        } else {
            i
        }] by {}
    } else if entries.len() == capacity {
        assert forall|i: int| 0 < i < after.len() implies after[i] == entries[i - 1] by {}
    } else {
        assert forall|i: int| 0 < i < after.len() implies after[i] == entries[i - 1] by {}
    }
    assert(distinct(after));
    let found = slot(after, key);
    assert(after[found].0 == key);
    assert(found == 0);
    assert forall|k: u64| k != key && stored(after, k) implies value_of(after, k) == value_of(
        entries,
        k,
    ) by {
        let i = slot(after, k);
        assert(after[i].0 == k);
        assert(i > 0);
        let j = if stored(entries, key) && i > slot(entries, key) {
            i
        } else {
            i - 1
        };
        assert(entries[j] == after[i]);
        assert(entries[j].0 == k);
        let back = slot(entries, k);
        assert(entries[back].0 == k);
        assert(back == j);
    }
}

/// What was stored is found again: a lookup right after a store is a hit
/// with the stored bytes, and so is every later one for as long as the entry
/// has not left the cache, whatever was looked up or stored in between.
pub proof fn law_hit_after_store(
    entries: Seq<(u64, Seq<u8>)>,
    capacity: nat,
    key: u64,
    data: Seq<u8>,
    other: u64,
    other_data: Seq<u8>,
)
    requires
        distinct(entries),
        0 < capacity,
        entries.len() <= capacity,
    ensures
        value_of(inserted(entries, capacity, key, data), key) == Some(data),
        value_of(touched(inserted(entries, capacity, key, data), other), key) == Some(data),
        other != key && stored(
            inserted(inserted(entries, capacity, key, data), capacity, other, other_data),
            key,
        ) ==> value_of(
            inserted(inserted(entries, capacity, key, data), capacity, other, other_data),
            key,
        ) == Some(data),
{
    let first = inserted(entries, capacity, key, data);
    lemma_inserted(entries, capacity, key, data);
    lemma_touched(first, other);
    lemma_inserted(first, capacity, other, other_data);
}

/// A new key that is stored into a full cache makes the least recently used
/// entry leave, and no other.
pub proof fn law_least_recent_leaves(
    entries: Seq<(u64, Seq<u8>)>,
    capacity: nat,
    key: u64,
    data: Seq<u8>,
)
    requires
        distinct(entries),
        0 < capacity,
        entries.len() == capacity,
        !stored(entries, key),
    ensures
        inserted(entries, capacity, key, data) == seq![(key, data)] + entries.drop_last(),
        !stored(inserted(entries, capacity, key, data), entries.last().0),
        forall|i: int|
            0 <= i < entries.len() - 1 ==> value_of(
                inserted(entries, capacity, key, data),
                (#[trigger] entries[i]).0,
            ) == Some(entries[i].1),
{
    let after = inserted(entries, capacity, key, data);
    lemma_inserted(entries, capacity, key, data);
    assert forall|i: int| 0 < i < after.len() implies after[i] == entries[i - 1] by {}
    if stored(after, entries.last().0) {
        let at = slot(after, entries.last().0);
        assert(after[at].0 == entries.last().0);
        assert(entries[entries.len() - 1].0 == entries.last().0);
        assert(at > 0 ==> entries[at - 1].0 == entries[entries.len() - 1].0);
    }
    assert forall|i: int| 0 <= i < entries.len() - 1 implies value_of(
        after,
        (#[trigger] entries[i]).0,
    ) == Some(entries[i].1) by {
        assert(after[i + 1] == entries[i]);
        assert(after[i + 1].0 == entries[i].0);
        let at = slot(after, entries[i].0);
        assert(after[at].0 == entries[i].0);
        assert(at == i + 1);
    }
}

/// A hit makes its entry the most recently used: in a cache for two entries
/// or more, it outlives the next store of a new key.
pub proof fn law_hit_refreshes(
    entries: Seq<(u64, Seq<u8>)>,
    capacity: nat,
    key: u64,
    other: u64,
    other_data: Seq<u8>,
)
    requires
        distinct(entries),
        2 <= capacity,
        entries.len() <= capacity,
        stored(entries, key),
        other != key,
    ensures
        touched(entries, key)[0].0 == key,
        value_of(inserted(touched(entries, key), capacity, other, other_data), key) == value_of(
            entries,
            key,
        ),
{
    let fresh = touched(entries, key);
    let after = inserted(fresh, capacity, other, other_data);
    lemma_touched(entries, key);
    lemma_inserted(fresh, capacity, other, other_data);
    assert(fresh[0].0 == key);
    if stored(fresh, other) {
        let at = slot(fresh, other);
        assert(fresh[at].0 == other);
        assert(at > 0);
        assert(after[1] == fresh[0]);
    } else {
        assert(after[1] == fresh[0]);
    }
    assert(after[1].0 == key);
    assert(stored(after, key));
}

/// Two locators with the same key share one slot: what was stored for the
/// second is what the first finds, and the bytes of the first are gone.
pub proof fn law_collision_shares_slot(
    entries: Seq<(u64, Seq<u8>)>,
    capacity: nat,
    first: Seq<char>,
    second: Seq<char>,
    first_data: Seq<u8>,
    second_data: Seq<u8>,
)
    requires
        distinct(entries),
        0 < capacity,
        entries.len() <= capacity,
        locator_key(first) == locator_key(second),
    ensures
        value_of(
            inserted(
                inserted(entries, capacity, locator_key(first), first_data),
                capacity,
                locator_key(second),
                second_data,
            ),
            locator_key(first),
        ) == Some(second_data),
        inserted(
            inserted(entries, capacity, locator_key(first), first_data),
            capacity,
            locator_key(second),
            second_data,
        ).len() == inserted(entries, capacity, locator_key(first), first_data).len(),
{
    let key = locator_key(first);
    let once = inserted(entries, capacity, key, first_data);
    lemma_inserted(entries, capacity, key, first_data);
    lemma_inserted(once, capacity, key, second_data);
    assert(once[0].0 == key);
    assert(stored(once, key));
}

} // verus!
