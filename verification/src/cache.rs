//! A cache of point lookups whose entries lapse after a time to live.
//!
//! An entry that has outlived its time to live is passed over on reading and
//! stays in place until the next write to its key replaces it.

use vstd::prelude::*;
use std::collections::HashMap;
use std::time::{Duration, Instant};
use crate::timing::{duration_from_secs, duration_nanos, instant_elapsed, instant_now, outlasts};

verus! {

broadcast use vstd::std_specs::hash::group_hash_axioms;

/// The time to live of a cached lookup, in seconds.
pub const DEFAULT_TTL_SECS: u64 = 300;

/// A value together with the moment it was stored and its time to live.
pub struct CacheEntry<T> {
    data: T,
    timestamp: Instant,
    ttl: Duration,
}

impl<T> CacheEntry<T> {
    /// The value that the entry holds.
    pub closed spec fn data(&self) -> T {
        self.data
    }

    /// The entry's time to live.
    pub closed spec fn ttl(&self) -> Duration {
        self.ttl
    }

    /// Whether an entry of this time to live has lapsed at age `age`: it has
    /// once the age is strictly longer than the time to live.
    pub open spec fn lapsed_after(&self, age: Duration) -> bool {
        duration_nanos(age) > duration_nanos(self.ttl())
    }

    /// An entry for `data`, stored now, that lives for `ttl`.
    pub fn new(data: T, ttl: Duration) -> (e: Self)
        ensures
            e.data() == data,
            e.ttl() == ttl,
    {
        CacheEntry { data, timestamp: instant_now(), ttl }
    }

    /// The time gone by since the entry was stored.
    fn age(&self) -> Duration {
        instant_elapsed(&self.timestamp)
    }

    /// Whether the entry has lapsed at age `age`.
    pub fn is_expired_after(&self, age: &Duration) -> (r: bool)
        ensures
            r == self.lapsed_after(*age),
    {
        outlasts(age, &self.ttl)
    }

    /// Whether the entry has lapsed by now.
    pub fn is_expired(&self) -> bool {
        let age = self.age();
        self.is_expired_after(&age)
    }

    pub fn get_data(&self) -> (r: &T)
        ensures
            *r == self.data(),
    {
        &self.data
    }
}

/// What a reading of `entries` at key `key` yields when the entry found
/// there, if any, has the age `age`.
pub open spec fn served<T>(entries: Map<u128, CacheEntry<T>>, key: u128, age: Duration) -> Option<
    T,
> {
    if entries.contains_key(key) && !entries[key].lapsed_after(age) {
        Some(entries[key].data())
    } else {
        None
    }
}

/// Entries by identifier, all written with one time to live.
pub struct ResultCache<T> {
    entries: HashMap<u128, CacheEntry<T>>,
    ttl: Duration,
}

impl<T> View for ResultCache<T> {
    type V = Map<u128, CacheEntry<T>>;

    closed spec fn view(&self) -> Map<u128, CacheEntry<T>> {
        self.entries@
    }
}

impl<T> ResultCache<T> {
    /// The time to live that the cache gives to what is put into it.
    pub closed spec fn ttl(&self) -> Duration {
        self.ttl
    }

    /// An empty cache whose entries live for `ttl`.
    pub fn new(ttl: Duration) -> (c: Self)
        ensures
            c@ == Map::<u128, CacheEntry<T>>::empty(),
            c.ttl() == ttl,
    {
        ResultCache { entries: HashMap::new(), ttl }
    }

    /// An empty cache whose entries live for `DEFAULT_TTL_SECS` seconds.
    pub fn with_default_ttl() -> (c: Self)
        ensures
            c@ == Map::<u128, CacheEntry<T>>::empty(),
            duration_nanos(c.ttl()) == DEFAULT_TTL_SECS * 1_000_000_000,
    {
        ResultCache::new(duration_from_secs(DEFAULT_TTL_SECS))
    }

    /// The entry stored under `key`, lapsed or not.
    pub fn entry(&self, key: u128) -> (r: Option<&CacheEntry<T>>)
        ensures
            r == (if self@.contains_key(key) {
                Some(&self@[key])
            } else {
                None
            }),
    {
        self.entries.get(&key)
    }

    /// The value under `key`, given that the entry found there, if any, has
    /// the age `age`: the value where there is an entry that has not lapsed.
    pub fn get_after(&self, key: u128, age: &Duration) -> (r: Option<&T>)
        ensures
            match r {
                Some(value) => served(self@, key, *age) == Some(*value),
                None => served(self@, key, *age) is None,
            },
    {
        match self.entries.get(&key) {
            Some(entry) => {
                if entry.is_expired_after(age) {
                    None
                } else {
                    Some(entry.get_data())
                }
            },
            None => None,
        }
    }

    /// The value under `key`, where there is an entry that has not lapsed by
    /// now. Whether it has is for the clock to say: a value that comes back
    /// is the one stored under `key`, and none comes back for a key that
    /// was never written.
    pub fn get(&self, key: u128) -> (r: Option<&T>)
        ensures
            r is Some ==> self@.contains_key(key) && *r->Some_0 == self@[key].data(),
            !self@.contains_key(key) ==> r is None,
    {
        match self.entries.get(&key) {
            Some(entry) => {
                let age = entry.age();
                if entry.is_expired_after(&age) {
                    None
                } else {
                    Some(entry.get_data())
                }
            },
            None => None,
        }
    }

    /// Stores `value` under `key` with a fresh timestamp, in place of
    /// whatever was there.
    pub fn put(&mut self, key: u128, value: T)
        ensures
            final(self).ttl() == old(self).ttl(),
            final(self)@.dom() == old(self)@.dom().insert(key),
            final(self)@[key].data() == value,
            final(self)@[key].ttl() == old(self).ttl(),
            forall|other: u128|
                other != key && old(self)@.contains_key(other) ==> final(self)@[other] == old(
                    self,
                )@[other],
    {
        let entry = CacheEntry::new(value, self.ttl);
        self.entries.insert(key, entry);
        proof {
            assert(final(self)@.dom() =~= old(self)@.dom().insert(key));
        }
    }

    /// The number of entries, lapsed ones included.
    pub fn len(&self) -> (n: usize)
        ensures
            n == self@.len(),
    {
        self.entries.len()
    }
}

/// A value that was just put is served for as long as its age does not
/// exceed the time to live.
pub proof fn lemma_fresh_entry_is_served<T>(
    entries: Map<u128, CacheEntry<T>>,
    key: u128,
    entry: CacheEntry<T>,
    age: Duration,
)
    requires
        duration_nanos(age) <= duration_nanos(entry.ttl()),
    ensures
        served(entries.insert(key, entry), key, age) == Some(entry.data()),
{
}

/// An entry whose age exceeds its time to live is not served, although it
/// is still in place.
pub proof fn lemma_lapsed_entry_is_not_served<T>(
    entries: Map<u128, CacheEntry<T>>,
    key: u128,
    age: Duration,
)
    requires
        entries.contains_key(key),
        duration_nanos(age) > duration_nanos(entries[key].ttl()),
    ensures
        served(entries, key, age) is None,
        entries.contains_key(key),
{
}

} // verus!
