//! The TTL cache: a concurrent key/value store with per-entry expiry.
//!
//! Payloads are texts (callers serialize their own values); each entry
//! remembers when it was stored and how long it stays valid.  Expired
//! entries are evicted lazily, on the read that finds them stale.  The
//! store itself is a `dashmap::DashMap`, trusted through the wrappers
//! below; every rule about freshness and eviction is verified on top.

use vstd::prelude::*;

use crate::clock::now_epoch_secs;

verus! {

/// One cached value: a payload, the time it was stored (seconds since the
/// Unix epoch), and its time-to-live in seconds.
#[derive(Debug, Clone)]
pub struct CacheEntry<T> {
    pub data: T,
    pub timestamp: u64,
    pub ttl_seconds: u64,
}

impl<T> CacheEntry<T> {
    /// An entry stored at time `now`.
    pub fn new_at(data: T, ttl_seconds: u64, now: u64) -> (r: CacheEntry<T>)
        ensures
            r.data == data,
            r.timestamp == now,
            r.ttl_seconds == ttl_seconds,
    {
        CacheEntry { data, timestamp: now, ttl_seconds }
    }

    /// An entry stamped with the clock's present reading.
    pub fn new(data: T, ttl_seconds: u64) -> (r: CacheEntry<T>)
        ensures
            r.data == data,
            r.ttl_seconds == ttl_seconds,
    {
        let now = now_epoch_secs();
        CacheEntry::new_at(data, ttl_seconds, now)
    }

    /// The expiry policy: an entry is expired once more than `ttl_seconds`
    /// whole seconds have passed since it was stored.  A clock reading
    /// before the entry's own timestamp counts as not expired.
    pub open spec fn spec_expired_at(&self, now: u64) -> bool {
        now > self.timestamp + self.ttl_seconds
    }

    /// Decide expiry against a given clock reading.
    pub fn is_expired_at(&self, now: u64) -> (r: bool)
        ensures
            r == self.spec_expired_at(now),
    {
        if now < self.timestamp {
            false
        } else {
            now - self.timestamp > self.ttl_seconds
        }
    }

    /// Decide expiry against the clock's present reading.
    pub fn is_expired(&self) -> bool {
        let now = now_epoch_secs();
        self.is_expired_at(now)
    }
}

#[verifier::external_type_specification]
#[verifier::external_body]
#[verifier::reject_recursive_types(K)]
#[verifier::reject_recursive_types(V)]
#[verifier::reject_recursive_types(S)]
pub struct ExDashMap<K, V, S>(dashmap::DashMap<K, V, S>);

/// What the concurrent map holds: under each key's characters, the stored
/// payload's characters, its timestamp and its time-to-live.
pub uninterp spec fn cache_contents(m: dashmap::DashMap<String, CacheEntry<String>>) -> Map<
    Seq<char>,
    (Seq<char>, u64, u64),
>;

/// Relies on `dashmap::DashMap::new`: an empty map.
#[verifier::external_body]
fn dm_new() -> (r: dashmap::DashMap<String, CacheEntry<String>>)
    ensures
        cache_contents(r) == (Map::<Seq<char>, (Seq<char>, u64, u64)>::empty()),
{
    dashmap::DashMap::new()
}

/// Relies on `dashmap::DashMap::insert`: afterwards the key maps to the new
/// entry; other keys are untouched.
#[verifier::external_body]
fn dm_insert(
    m: &mut dashmap::DashMap<String, CacheEntry<String>>,
    key: String,
    entry: CacheEntry<String>,
)
    ensures
        cache_contents(*final(m)) == cache_contents(*old(m)).insert(
            key@,
            (entry.data@, entry.timestamp, entry.ttl_seconds),
        ),
{
    m.insert(key, entry);
}

/// Relies on `dashmap::DashMap::get`: the entry under the key, copied out,
/// or nothing when the key is absent.
#[verifier::external_body]
fn dm_get(m: &dashmap::DashMap<String, CacheEntry<String>>, key: &str) -> (r: Option<
    CacheEntry<String>,
>)
    ensures
        match r {
            Some(e) => cache_contents(*m).contains_key(key@) && cache_contents(*m)[key@] == (
                e.data@,
                e.timestamp,
                e.ttl_seconds,
            ),
            None => !cache_contents(*m).contains_key(key@),
        },
{
    m.get(key).map(|e| e.value().clone())
}

/// Relies on `dashmap::DashMap::remove`: afterwards the key is absent;
/// other keys are untouched.
#[verifier::external_body]
fn dm_remove(m: &mut dashmap::DashMap<String, CacheEntry<String>>, key: &str)
    ensures
        cache_contents(*final(m)) == cache_contents(*old(m)).remove(key@),
{
    m.remove(key);
}

/// A value under a key is fresh at time `now` when no more than its
/// time-to-live has passed since it was stored.
pub open spec fn entry_fresh(e: (Seq<char>, u64, u64), now: u64) -> bool {
    now <= e.1 + e.2
}

/// The in-memory TTL cache.  Its mathematical value is the map from keys to
/// (payload, timestamp, time-to-live).
#[derive(Debug)]
pub struct TtlCache {
    map: dashmap::DashMap<String, CacheEntry<String>>,
}

impl View for TtlCache {
    type V = Map<Seq<char>, (Seq<char>, u64, u64)>;

    closed spec fn view(&self) -> Map<Seq<char>, (Seq<char>, u64, u64)> {
        cache_contents(self.map)
    }
}

impl TtlCache {
    /// An empty cache.
    pub fn new() -> (r: TtlCache)
        ensures
            r@ == Map::<Seq<char>, (Seq<char>, u64, u64)>::empty(),
    {
        TtlCache { map: dm_new() }
    }

    /// Store a payload under a key at time `now`, unconditionally
    /// overwriting whatever was there.
    pub fn set_cached_at(&mut self, key: String, data: String, ttl_seconds: u64, now: u64)
        ensures
            final(self)@ == old(self)@.insert(key@, (data@, now, ttl_seconds)),
    {
        let entry = CacheEntry::new_at(data, ttl_seconds, now);
        dm_insert(&mut self.map, key, entry);
    }

    /// Store a payload under a key, stamped with the clock's present
    /// reading.
    pub fn set_cached(&mut self, key: String, data: String, ttl_seconds: u64)
        ensures
            exists|now: u64|
                final(self)@ == old(self)@.insert(key@, (data@, now, ttl_seconds)),
    {
        let now = now_epoch_secs();
        self.set_cached_at(key, data, ttl_seconds, now);
    }

    /// Read the payload under a key as of time `now`.  A fresh entry comes
    /// back unchanged; a stale one is evicted and nothing comes back; an
    /// absent key changes nothing.
    pub fn get_cached_at(&mut self, key: &str, now: u64) -> (r: Option<String>)
        ensures
            match r {
                Some(s) => old(self)@.contains_key(key@) && entry_fresh(old(self)@[key@], now)
                    && s@ == old(self)@[key@].0 && final(self)@ == old(self)@,
                None => (!old(self)@.contains_key(key@) && final(self)@ == old(self)@) || (old(
                    self
                )@.contains_key(key@) && !entry_fresh(old(self)@[key@], now) && final(self)@
                    == old(self)@.remove(key@)),
            },
    {
        match dm_get(&self.map, key) {
            Some(entry) => {
                if entry.is_expired_at(now) {
                    dm_remove(&mut self.map, key);
                    None
                } else {
                    Some(entry.data)
                }
            },
            None => None,
        }
    }

    /// Read the payload under a key as of the clock's present reading.
    pub fn get_cached(&mut self, key: &str) -> (r: Option<String>)
        ensures
            r is Some ==> old(self)@.contains_key(key@) && r->0@ == old(self)@[key@].0 && final(
                self
            )@ == old(self)@,
            final(self)@ == old(self)@ || final(self)@ == old(self)@.remove(key@),
    {
        let now = now_epoch_secs();
        self.get_cached_at(key, now)
    }

    /// Drop whatever stands under a key; callers use this when a stored
    /// payload no longer deserializes.
    pub fn invalidate(&mut self, key: &str)
        ensures
            final(self)@ == old(self)@.remove(key@),
    {
        dm_remove(&mut self.map, key);
    }
}

/// The cache round trip: a value stored under a key is exactly what a read
/// within its time-to-live yields, and a read after the time-to-live has
/// passed finds the entry stale.
pub proof fn lemma_cache_round_trip(
    m: Map<Seq<char>, (Seq<char>, u64, u64)>,
    key: Seq<char>,
    data: Seq<char>,
    ttl_seconds: u64,
    now: u64,
    later: u64,
)
    ensures
        m.insert(key, (data, now, ttl_seconds)).contains_key(key),
        m.insert(key, (data, now, ttl_seconds))[key].0 == data,
        entry_fresh(m.insert(key, (data, now, ttl_seconds))[key], now),
        later > now + ttl_seconds ==> !entry_fresh(
            m.insert(key, (data, now, ttl_seconds))[key],
            later,
        ),
{
}

} // verus!
