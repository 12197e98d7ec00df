//! The cache itself: a moka cache with per-entry time-to-live, together
//! with the counters of the operations served.

use vstd::prelude::*;
use crate::cache::stats::{bump, CacheStats};

verus! {

/// What the cache holds for a key: the value and its time-to-live in
/// seconds (0: no expiry).
#[derive(Clone, Debug)]
pub struct Entry {
    pub data: Vec<u8>,
    pub ttl_secs: u32,
}

/// How long an entry lives after its creation: `ttl_secs` seconds, or for
/// ever when `ttl_secs` is 0.
pub fn expiry_secs(ttl_secs: u32) -> (r: Option<u64>)
    ensures
        r == (if ttl_secs > 0 { Some(ttl_secs as u64) } else { None::<u64> }),
{
    if ttl_secs > 0 {
        Some(ttl_secs as u64)
    } else {
        None
    }
}

#[verifier::external_type_specification]
#[verifier::external_body]
pub struct ExInstant(std::time::Instant);

/// The duration that `Duration::from_secs(secs)` gives: `secs` whole
/// seconds.
pub uninterp spec fn duration_from_secs(secs: u64) -> core::time::Duration;

/// `Duration::from_secs`: the same number of seconds always gives the same
/// duration (it is a pure constructor). Nothing more about the duration is
/// claimed here.
pub assume_specification[ core::time::Duration::from_secs ](secs: u64) -> (d: core::time::Duration)
    ensures
        d == duration_from_secs(secs),
;

/// The per-entry expiry policy given to moka.
pub struct TtlExpiry;

impl moka::Expiry<Vec<u8>, Entry> for TtlExpiry {
    /// A new entry lives `ttl_secs` seconds from its creation; 0 means
    /// that it never expires.
    fn expire_after_create(
        &self,
        _key: &Vec<u8>,
        value: &Entry,
        _created_at: std::time::Instant,
    ) -> (expires: Option<core::time::Duration>)
        ensures
            expires == (if value.ttl_secs > 0 {
                Some(duration_from_secs(value.ttl_secs as u64))
            } else {
                None::<core::time::Duration>
            }),
    {
        match expiry_secs(value.ttl_secs) {
            Some(secs) => Some(core::time::Duration::from_secs(secs)),
            None => None,
        }
    }

    /// A SET over a key that is held applies the new entry's time-to-live,
    /// counted from the update; 0 means that the entry no longer expires.
    fn expire_after_update(
        &self,
        _key: &Vec<u8>,
        value: &Entry,
        _updated_at: std::time::Instant,
        _duration_until_expiry: Option<core::time::Duration>,
    ) -> (expires: Option<core::time::Duration>)
        ensures
            expires == (if value.ttl_secs > 0 {
                Some(duration_from_secs(value.ttl_secs as u64))
            } else {
                None::<core::time::Duration>
            }),
    {
        match expiry_secs(value.ttl_secs) {
            Some(secs) => Some(core::time::Duration::from_secs(secs)),
            None => None,
        }
    }
}

#[verifier::external_type_specification]
#[verifier::external_body]
#[verifier::reject_recursive_types(K)]
#[verifier::reject_recursive_types(V)]
#[verifier::reject_recursive_types(S)]
pub struct ExCache<K, V, S>(moka::sync::Cache<K, V, S>);

/// The entries of a moka cache: for each key, the value and time-to-live
/// most recently inserted and not invalidated since. Moka may drop any of
/// them earlier (capacity eviction, expiry), so a read can miss a key that
/// is here, but it never returns anything that is not here.
pub uninterp spec fn cache_entries(cache: moka::sync::Cache<Vec<u8>, Entry>) -> Map<Seq<u8>, (Seq<u8>, u32)>;

/// The maximum capacity (number of entries) that a moka cache was built
/// with. Moka evicts entries to keep about this many; it is fixed for the
/// life of the cache.
pub uninterp spec fn cache_capacity(cache: moka::sync::Cache<Vec<u8>, Entry>) -> u64;

/// `Cache::builder().max_capacity(n).expire_after(TtlExpiry).build()`:
/// a new moka cache holds no entry and has the given maximum capacity.
#[verifier::external_body]
fn cache_build(max_capacity: u64) -> (fresh: moka::sync::Cache<Vec<u8>, Entry>)
    ensures
        cache_entries(fresh) =~= Map::empty(),
        cache_capacity(fresh) == max_capacity,
{
    moka::sync::Cache::builder().max_capacity(max_capacity).expire_after(TtlExpiry).build()
}

/// `Cache::insert`: the key now maps to the value (an earlier value of the
/// key is replaced).
#[verifier::external_body]
fn cache_insert(cache: &mut moka::sync::Cache<Vec<u8>, Entry>, key: Vec<u8>, value: Entry)
    ensures
        cache_entries(*final(cache)) == cache_entries(*old(cache)).insert(key@, (value.data@, value.ttl_secs)),
        cache_capacity(*final(cache)) == cache_capacity(*old(cache)),
{
    cache.insert(key, value)
}

/// `Cache::get`: a value that it returns is the one held for the key. It
/// may return `None` for a key that is held (evicted or expired).
#[verifier::external_body]
fn cache_get(cache: &moka::sync::Cache<Vec<u8>, Entry>, key: &[u8]) -> (found: Option<Entry>)
    ensures
        found matches Some(e) ==> cache_entries(*cache).contains_key(key@)
            && cache_entries(*cache)[key@] == (e.data@, e.ttl_secs),
{
    cache.get(key)
}

/// `Cache::contains_key`: `true` only for a key that is held. It may return
/// `false` for a key that is held (evicted or expired).
#[verifier::external_body]
fn cache_contains_key(cache: &moka::sync::Cache<Vec<u8>, Entry>, key: &[u8]) -> (present: bool)
    ensures
        present ==> cache_entries(*cache).contains_key(key@),
{
    cache.contains_key(key)
}

/// `Cache::invalidate`: the key is no longer held.
#[verifier::external_body]
fn cache_invalidate(cache: &mut moka::sync::Cache<Vec<u8>, Entry>, key: &[u8])
    ensures
        cache_entries(*final(cache)) == cache_entries(*old(cache)).remove(key@),
        cache_capacity(*final(cache)) == cache_capacity(*old(cache)),
{
    cache.invalidate(key)
}

/// `Cache::invalidate_all`: no entry inserted before the call is held.
#[verifier::external_body]
fn cache_invalidate_all(cache: &mut moka::sync::Cache<Vec<u8>, Entry>)
    ensures
        cache_entries(*final(cache)) =~= Map::empty(),
        cache_capacity(*final(cache)) == cache_capacity(*old(cache)),
{
    cache.invalidate_all()
}

/// `Cache::run_pending_tasks`: runs moka's maintenance; the entries held
/// stay as they are.
#[verifier::external_body]
fn cache_run_pending_tasks(cache: &mut moka::sync::Cache<Vec<u8>, Entry>)
    ensures
        cache_entries(*final(cache)) == cache_entries(*old(cache)),
        cache_capacity(*final(cache)) == cache_capacity(*old(cache)),
{
    cache.run_pending_tasks()
}

/// `Cache::entry_count`: moka's estimate of the number of entries. The
/// estimate can lag behind the operations, so nothing is claimed of it.
#[verifier::external_body]
fn cache_entry_count(cache: &moka::sync::Cache<Vec<u8>, Entry>) -> u64 {
    cache.entry_count()
}

/// The abstract state of a store: its entries and its counters.
pub struct StoreView {
    pub entries: Map<Seq<u8>, (Seq<u8>, u32)>,
    pub stats: CacheStats,
    /// The maximum capacity the cache was built with.
    pub capacity: u64,
}

impl StoreView {
    pub open spec fn after_set(self, key: Seq<u8>, value: Seq<u8>, ttl_secs: u32) -> StoreView {
        StoreView { entries: self.entries.insert(key, (value, ttl_secs)), stats: self.stats.after_set(), ..self }
    }

    pub open spec fn after_hit(self) -> StoreView {
        StoreView { stats: self.stats.after_hit(), ..self }
    }

    pub open spec fn after_miss(self) -> StoreView {
        StoreView { stats: self.stats.after_miss(), ..self }
    }

    /// `key` removed; the delete counter moves only when `existed`.
    pub open spec fn after_del(self, key: Seq<u8>, existed: bool) -> StoreView {
        StoreView {
            entries: self.entries.remove(key),
            stats: if existed { self.stats.after_delete() } else { self.stats },
            ..self
        }
    }

    pub open spec fn after_flush(self) -> StoreView {
        StoreView { entries: Map::empty(), stats: self.stats.after_flush(), ..self }
    }

    /// What a GET may answer: `Some(v)` only where `v` is held for the key,
    /// counted as a hit; `None`, counted as a miss.
    pub open spec fn get_outcome(self, key: Seq<u8>, found: Option<Seq<u8>>, after: StoreView) -> bool {
        match found {
            Some(v) => self.entries.contains_key(key) && self.entries[key].0 == v && after == self.after_hit(),
            None => after == self.after_miss(),
        }
    }
}

/// A SET holds the value and exactly the time-to-live it was given under
/// its key (so the entry expires after that many seconds, or never for 0,
/// by `TtlExpiry`), keeps every other key as it was, and moves only the set
/// counter, by one (wrapping past `u64::MAX`).
pub proof fn law_set_holds_value_and_ttl(s: StoreView, key: Seq<u8>, value: Seq<u8>, ttl_secs: u32)
    ensures
        s.after_set(key, value, ttl_secs).entries.contains_key(key),
        s.after_set(key, value, ttl_secs).entries[key].0 == value,
        s.after_set(key, value, ttl_secs).entries[key].1 == ttl_secs,
        forall|k: Seq<u8>| k != key ==> (#[trigger] s.after_set(key, value, ttl_secs).entries.contains_key(k)
            <==> s.entries.contains_key(k)),
        forall|k: Seq<u8>| k != key && s.entries.contains_key(k)
            ==> #[trigger] s.after_set(key, value, ttl_secs).entries[k] == s.entries[k],
        s.after_set(key, value, ttl_secs).stats.sets as int == (s.stats.sets as int + 1) % 0x1_0000_0000_0000_0000,
        s.after_set(key, value, ttl_secs).stats.hits == s.stats.hits,
        s.after_set(key, value, ttl_secs).stats.misses == s.stats.misses,
        s.after_set(key, value, ttl_secs).stats.deletes == s.stats.deletes,
        s.after_set(key, value, ttl_secs).stats.flushes == s.stats.flushes,
        s.after_set(key, value, ttl_secs).capacity == s.capacity,
{
}

/// A cache of byte strings with per-entry time-to-live and capacity-bounded
/// eviction, with the counters of the operations served.
pub struct CacheStore {
    inner: moka::sync::Cache<Vec<u8>, Entry>,
    stats: CacheStats,
}

impl View for CacheStore {
    type V = StoreView;

    closed spec fn view(&self) -> StoreView {
        StoreView { entries: cache_entries(self.inner), stats: self.stats, capacity: cache_capacity(self.inner) }
    }
}

impl CacheStore {
    /// An empty store that holds at most about `max_capacity` entries.
    pub fn new(max_capacity: u64) -> (s: CacheStore)
        ensures
            s@.entries == Map::<Seq<u8>, (Seq<u8>, u32)>::empty(),
            s@.stats == CacheStats::zero(),
            s@.capacity == max_capacity,
    {
        CacheStore { inner: cache_build(max_capacity), stats: CacheStats::new() }
    }

    /// Stores `value` under `key`, to expire after `ttl_secs` seconds (0:
    /// never), and counts a set.
    pub fn set(&mut self, key: Vec<u8>, value: Vec<u8>, ttl_secs: u32)
        ensures
            final(self)@ == old(self)@.after_set(key@, value@, ttl_secs),
            final(self)@.entries.contains_key(key@),
            final(self)@.entries[key@] == (value@, ttl_secs),
            forall|k: Seq<u8>| k != key@ ==> (#[trigger] final(self)@.entries.contains_key(k)
                <==> old(self)@.entries.contains_key(k)),
            forall|k: Seq<u8>| k != key@ && old(self)@.entries.contains_key(k)
                ==> #[trigger] final(self)@.entries[k] == old(self)@.entries[k],
            final(self)@.stats.sets == bump(old(self)@.stats.sets),
            final(self)@.stats.hits == old(self)@.stats.hits,
            final(self)@.stats.misses == old(self)@.stats.misses,
            final(self)@.stats.deletes == old(self)@.stats.deletes,
            final(self)@.stats.flushes == old(self)@.stats.flushes,
            final(self)@.capacity == old(self)@.capacity,
    {
        cache_insert(&mut self.inner, key, Entry { data: value, ttl_secs });
        self.stats.set();
    }

    /// The value held under `key`, if the cache still has it. A found value
    /// counts as a hit, an absent one as a miss.
    pub fn get(&mut self, key: &[u8]) -> (r: Option<Vec<u8>>)
        ensures
            old(self)@.get_outcome(key@, match r { Some(v) => Some(v@), None => None::<Seq<u8>> }, final(self)@),
    {
        let found = cache_get(&self.inner, key);
        self.count_lookup(found)
    }

    /// Counts a lookup whose outcome was `found`: a hit when an entry was
    /// found, whose value is returned, else a miss. The entries and the
    /// capacity stay as they are.
    pub fn count_lookup(&mut self, found: Option<Entry>) -> (r: Option<Vec<u8>>)
        ensures
            match found {
                Some(e) => r == Some(e.data) && final(self)@ == old(self)@.after_hit(),
                None => r is None && final(self)@ == old(self)@.after_miss(),
            },
    {
        match found {
            Some(e) => {
                self.stats.hit();
                Some(e.data)
            },
            None => {
                self.stats.miss();
                None
            },
        }
    }

    /// Removes `key`. Returns whether the cache still had it, which then
    /// counts as a delete.
    pub fn del(&mut self, key: &[u8]) -> (existed: bool)
        ensures
            final(self)@ == old(self)@.after_del(key@, existed),
            existed ==> old(self)@.entries.contains_key(key@),
    {
        let existed = cache_contains_key(&self.inner, key);
        cache_invalidate(&mut self.inner, key);
        self.count_removal(existed)
    }

    /// Counts a removal whose key the cache reported as `existed`: a delete
    /// when it did, nothing when it did not; returns that report. The
    /// entries and the capacity stay as they are.
    pub fn count_removal(&mut self, existed: bool) -> (r: bool)
        ensures
            r == existed,
            final(self)@.entries == old(self)@.entries,
            final(self)@.capacity == old(self)@.capacity,
            final(self)@.stats == (if existed { old(self)@.stats.after_delete() } else { old(self)@.stats }),
    {
        if existed {
            self.stats.delete();
        }
        existed
    }

    /// Removes every entry and counts a flush.
    pub fn flush(&mut self)
        ensures
            final(self)@ == old(self)@.after_flush(),
    {
        cache_invalidate_all(&mut self.inner);
        cache_run_pending_tasks(&mut self.inner);
        self.stats.flush();
    }

    /// The counters of the operations served.
    pub fn stats(&self) -> (s: &CacheStats)
        ensures
            *s == self@.stats,
    {
        &self.stats
    }

    /// Moka's estimate of the number of entries held.
    pub fn entry_count(&self) -> u64 {
        cache_entry_count(&self.inner)
    }
}

} // verus!
