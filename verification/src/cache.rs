//! Caches of fetched data: the course list kept on disk for an hour, and
//! the TUI's per-course lists kept in memory for five minutes.

use std::collections::HashMap;

use vstd::prelude::*;

use crate::assignments::{ts_valid, Timestamp};
use crate::paths::{join2, XdgDirs};
use crate::tui_app::secs_until;

verus! {

broadcast use vstd::std_specs::hash::group_hash_axioms;

// ───────────────────────────── the course list on disk ─────────────────────────────

/// How long the cached course list stays good, in seconds.
pub const COURSE_CACHE_TTL_SECS: i64 = 3600;

/// Where the course list is cached: `<cache home>/ntucool/courses.json`.
pub fn course_cache_path(dirs: &XdgDirs) -> (r: String)
    ensures
        r@ == join2(dirs.cache_home@, "ntucool"@, "courses.json"@),
{
    let base = crate::strs::chars_of(dirs.cache_home.as_str());
    let d = crate::config::join_path(&base, "ntucool");
    let dv = crate::strs::chars_of(d.as_str());
    crate::config::join_path(&dv, "courses.json")
}

/// A course list fetched at `fetched_at` may still be used at `now`: it is
/// less than an hour old (or from the future).
pub open spec fn course_cache_fresh(fetched_at: Timestamp, now: Timestamp) -> bool {
    secs_until(now, fetched_at) < COURSE_CACHE_TTL_SECS
}

/// Whether the cached course list may be used (see `course_cache_fresh`).
pub fn course_cache_is_fresh(fetched_at: Timestamp, now: Timestamp) -> (r: bool)
    requires
        ts_valid(fetched_at),
        ts_valid(now),
    ensures
        r == course_cache_fresh(fetched_at, now),
{
    crate::tui_app::whole_secs(now, fetched_at) < COURSE_CACHE_TTL_SECS
}

// ───────────────────────────── the TUI's lists in memory ─────────────────────────────

/// How long a list fetched for the TUI stays good, in milliseconds.
pub const CACHE_TTL_MS: u64 = 300_000;

/// Data fetched at a moment of a clock that counts milliseconds and never
/// goes back.
#[derive(Debug, Clone)]
pub struct CacheEntry<T> {
    pub data: T,
    pub fetched_at_ms: u64,
}

/// An entry fetched at `fetched_at` is still good at `now`: less than the
/// TTL has passed (no time has passed when `now` is earlier).
pub open spec fn fresh(fetched_at: u64, now: u64) -> bool {
    now < fetched_at + CACHE_TTL_MS
}

impl<T> CacheEntry<T> {
    /// Whether the entry is still good at `now_ms` (see `fresh`).
    pub fn is_valid(&self, now_ms: u64) -> (r: bool)
        ensures
            r == fresh(self.fetched_at_ms, now_ms),
    {
        now_ms < self.fetched_at_ms || now_ms - self.fetched_at_ms < CACHE_TTL_MS
    }
}

/// What a cache holding `m` answers for `key` at `now`: the data of a
/// fresh entry, else nothing.
pub open spec fn lookup<T>(m: Map<i64, CacheEntry<T>>, key: i64, now: u64) -> Option<T> {
    if m.contains_key(key) && fresh(m[key].fetched_at_ms, now) {
        Some(m[key].data)
    } else {
        None
    }
}

/// Lists fetched per course, each kept for `CACHE_TTL_MS`.
#[derive(Debug)]
pub struct KeyedCache<T> {
    pub entries: HashMap<i64, CacheEntry<T>>,
}

impl<T> KeyedCache<T> {
    /// An empty cache.
    pub fn new() -> (r: KeyedCache<T>)
        ensures
            r.entries@ == Map::<i64, CacheEntry<T>>::empty(),
    {
        KeyedCache { entries: HashMap::new() }
    }

    /// The data cached for `key`, if it is still good at `now_ms`.
    pub fn get(&self, key: i64, now_ms: u64) -> (r: Option<&T>)
        ensures
            match lookup(self.entries@, key, now_ms) {
                Some(d) => r == Some(&d),
                None => r is None,
            },
    {
        match self.entries.get(&key) {
            Some(e) => if e.is_valid(now_ms) {
                Some(&e.data)
            } else {
                None
            },
            None => None,
        }
    }

    /// Keep `data` for `key`, fetched at `now_ms`, in place of what was there.
    pub fn put(&mut self, key: i64, data: T, now_ms: u64)
        ensures
            final(self).entries@ == old(self).entries@.insert(
                key,
                CacheEntry { data, fetched_at_ms: now_ms },
            ),
    {
        self.entries.insert(key, CacheEntry { data, fetched_at_ms: now_ms });
    }
}

/// What was put is what is read back while it is fresh, and nothing once
/// the TTL has passed.
pub proof fn law_read_after_put<T>(m: Map<i64, CacheEntry<T>>, key: i64, data: T, at: u64, now: u64)
    ensures
        now < at + CACHE_TTL_MS ==> lookup(
            m.insert(key, CacheEntry { data, fetched_at_ms: at }),
            key,
            now,
        ) == Some(data),
        now >= at + CACHE_TTL_MS ==> lookup(
            m.insert(key, CacheEntry { data, fetched_at_ms: at }),
            key,
            now,
        ) is None,
{
}

/// Putting data for one course leaves what is read for every other course
/// unchanged.
pub proof fn law_put_keeps_other_keys<T>(
    m: Map<i64, CacheEntry<T>>,
    key: i64,
    data: T,
    at: u64,
    other: i64,
    now: u64,
)
    requires
        other != key,
    ensures
        lookup(m.insert(key, CacheEntry { data, fetched_at_ms: at }), other, now) == lookup(
            m,
            other,
            now,
        ),
{
}

/// An entry good at some moment was good at every earlier moment from
/// its fetch on: expiry is final.
pub proof fn law_expiry_is_final(at: u64, t1: u64, t2: u64)
    requires
        t1 <= t2,
        fresh(at, t2),
    ensures
        fresh(at, t1),
{
}

} // verus!
