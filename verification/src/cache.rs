//! Short-TTL response cache in front of the snapshot fetcher, so that
//! several internal consumers within one window share a single upstream
//! call. The cache holds at most one snapshot and replaces it wholesale.
use vstd::prelude::*;

use crate::follower::FollowerItem;

verus! {

/// How long a cached snapshot stays valid, in milliseconds.
pub const CACHE_TTL_MS: u64 = 5000;

/// The cached follower snapshot: the list plus the instant (milliseconds
/// since the epoch) it was stored, or nothing at all.
pub struct APICache {
    pub followers_cache: Option<(Vec<FollowerItem>, u64)>,
    pub cache_duration_ms: u64,
}

impl APICache {
    /// Whether the cache holds a snapshot that is still young enough at
    /// instant `now_ms`: stored no later than `now_ms`, and strictly less
    /// than the TTL ago.
    pub open spec fn valid_at(&self, now_ms: u64) -> bool {
        match self.followers_cache {
            Option::Some((_, cached_at)) => cached_at <= now_ms && now_ms - cached_at
                < self.cache_duration_ms,
            Option::None => false,
        }
    }

    /// An empty cache with the default TTL.
    pub fn new() -> (r: Self)
        ensures
            r.followers_cache is None,
            r.cache_duration_ms == CACHE_TTL_MS,
    {
        APICache { followers_cache: Option::None, cache_duration_ms: CACHE_TTL_MS }
    }

    /// Returns the cached snapshot exactly when it is still valid at
    /// `now_ms`; otherwise nothing, and the caller must fetch and call
    /// [`APICache::cache_followers`].
    pub fn get_cached_followers(&self, now_ms: u64) -> (r: Option<&Vec<FollowerItem>>)
        ensures
            self.valid_at(now_ms) ==> r == Option::Some(&self.followers_cache->Some_0.0),
            !self.valid_at(now_ms) ==> r is None,
    {
        match &self.followers_cache {
            Option::Some((followers, cached_at)) => {
                if *cached_at <= now_ms && now_ms - *cached_at < self.cache_duration_ms {
                    Option::Some(followers)
                } else {
                    Option::None
                }
            },
            Option::None => Option::None,
        }
    }

    /// Replaces the cached value wholesale and resets its age to zero.
    pub fn cache_followers(&mut self, followers: Vec<FollowerItem>, now_ms: u64)
        ensures
            final(self).followers_cache == Option::Some((followers, now_ms)),
            final(self).cache_duration_ms == old(self).cache_duration_ms,
    {
        self.followers_cache = Option::Some((followers, now_ms));
    }

    /// Whether a [`APICache::get_cached_followers`] call at `now_ms` would
    /// hit.
    pub fn is_cache_valid(&self, now_ms: u64) -> (r: bool)
        ensures
            r == self.valid_at(now_ms),
    {
        match &self.followers_cache {
            Option::Some((_, cached_at)) => *cached_at <= now_ms && now_ms - *cached_at
                < self.cache_duration_ms,
            Option::None => false,
        }
    }
}

/// The read-through contract of the cache: after one `cache_followers`, any
/// `get_cached_followers` strictly within the TTL returns exactly the stored
/// snapshot, and any call at or past the TTL returns nothing.
pub proof fn lemma_cache_window(cache: APICache, followers: Vec<FollowerItem>, put_ms: u64, now_ms: u64)
    requires
        cache.followers_cache == Option::Some((followers, put_ms)),
        cache.cache_duration_ms == CACHE_TTL_MS,
        put_ms <= now_ms,
    ensures
        now_ms - put_ms < CACHE_TTL_MS ==> cache.valid_at(now_ms),
        now_ms - put_ms >= CACHE_TTL_MS ==> !cache.valid_at(now_ms),
{
}

} // verus!
