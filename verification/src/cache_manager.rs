//! A facade over the recency cache specialized to named sequences, with
//! hit and miss statistics.

use vstd::prelude::*;

use crate::lru::{get_hit_result, put_result, LRUCache};
use crate::sequence_data::SequenceData;

verus! {

/// Counters over a cache's lifetime plus its current and maximum entry
/// counts. The derived hit rate is hits over total requests; callers that
/// want it as a ratio compute it from these fields.
#[derive(Clone, Copy, Debug, PartialEq, Eq, Structural)]
pub struct CacheStats {
    pub total_requests: u64,
    pub cache_hits: u64,
    pub cache_misses: u64,
    pub current_size: usize,
    pub max_size: usize,
}

/// A 64-bit counter after one more increment; it saturates at the top of
/// its type, which no realistic run of increments reaches.
pub open spec fn tick64(t: u64) -> u64 {
    if t < u64::MAX {
        (t + 1) as u64
    } else {
        t
    }
}

/// One counter increment, saturating at the top of the type.
fn saturating_inc64(t: u64) -> (r: u64)
    ensures
        r == tick64(t),
{
    if t < u64::MAX {
        t + 1
    } else {
        t
    }
}

/// A sequence store keyed by name, wrapping one recency cache and one stats
/// record. Looking a key up counts as a request and as a hit or a miss;
/// clearing resets the counters.
pub struct CacheManager {
    pub cache: LRUCache<String, SequenceData>,
    pub stats: CacheStats,
}

impl CacheManager {
    /// Well-formed: the inner cache is, and the recorded maximum matches
    /// the cache's capacity.
    pub open spec fn wf(self) -> bool {
        &&& self.cache.wf()
        &&& self.stats.max_size == self.cache.spec_capacity()
    }

    /// An empty manager over a cache of the given capacity, counters zeroed.
    pub fn new(capacity: usize) -> (r: Self)
        ensures
            r.wf(),
            r.cache.spec_capacity() == capacity,
            r.cache.entries_view().len() == 0,
            r.stats == (CacheStats {
                total_requests: 0,
                cache_hits: 0,
                cache_misses: 0,
                current_size: 0,
                max_size: capacity,
            }),
    {
        CacheManager {
            cache: LRUCache::new(capacity),
            stats: CacheStats {
                total_requests: 0,
                cache_hits: 0,
                cache_misses: 0,
                current_size: 0,
                max_size: capacity,
            },
        }
    }

    /// Looks a sequence up by name. Every call counts one request; a hit
    /// counts a hit, refreshes the entry's recency and returns a clone of
    /// the stored sequence; a miss counts a miss and changes nothing else.
    pub fn get(&mut self, key: &str) -> (r: Option<SequenceData>)
        requires
            old(self).wf(),
        ensures
            final(self).wf(),
            final(self).stats.total_requests == tick64(old(self).stats.total_requests),
            final(self).stats.current_size == old(self).stats.current_size,
            final(self).stats.max_size == old(self).stats.max_size,
            match r {
                Some(s) => {
                    &&& old(self).cache.contains(key@)
                    &&& s.same_as(old(self).cache.value_of(key@))
                    &&& final(self).stats.cache_hits == tick64(old(self).stats.cache_hits)
                    &&& final(self).stats.cache_misses == old(self).stats.cache_misses
                    &&& get_hit_result(old(self).cache, key@, final(self).cache)
                },
                None => {
                    &&& !old(self).cache.contains(key@)
                    &&& final(self).stats.cache_misses == tick64(old(self).stats.cache_misses)
                    &&& final(self).stats.cache_hits == old(self).stats.cache_hits
                    &&& final(self).cache == old(self).cache
                },
            },
    {
        self.stats.total_requests = saturating_inc64(self.stats.total_requests);
        let owned = key.to_owned();
        let found = self.cache.get(&owned);
        match found {
            Some(sequence) => {
                let copy = sequence.clone();
                self.stats.cache_hits = saturating_inc64(self.stats.cache_hits);
                Some(copy)
            },
            None => {
                self.stats.cache_misses = saturating_inc64(self.stats.cache_misses);
                None
            },
        }
    }

    /// Stores a sequence under a name with the recency cache's insertion
    /// semantics, then refreshes the recorded entry count.
    pub fn put(&mut self, key: String, sequence: SequenceData)
        requires
            old(self).wf(),
        ensures
            final(self).wf(),
            put_result(old(self).cache, key, sequence, final(self).cache),
            final(self).cache.contains(key@),
            final(self).stats == (CacheStats {
                current_size: final(self).cache.entries_view().len() as usize,
                ..old(self).stats
            }),
    {
        self.cache.put(key, sequence);
        self.stats.current_size = self.cache.len();
    }

    /// Deletes a name if present, refreshes the recorded entry count, and
    /// reports whether something was removed. The counters are untouched.
    pub fn remove(&mut self, key: &str) -> (r: bool)
        requires
            old(self).wf(),
        ensures
            final(self).wf(),
            r == old(self).cache.contains(key@),
            r ==> final(self).cache.entries_view() == old(self).cache.entries_view().remove(
                old(self).cache.index_of(key@),
            ),
            !r ==> final(self).cache == old(self).cache,
            final(self).cache.clock() == old(self).cache.clock(),
            final(self).stats == (CacheStats {
                current_size: final(self).cache.entries_view().len() as usize,
                ..old(self).stats
            }),
    {
        let owned = key.to_owned();
        let removed = self.cache.remove(&owned).is_some();
        self.stats.current_size = self.cache.len();
        removed
    }

    /// Empties the cache and zeroes every counter except the maximum.
    pub fn clear(&mut self)
        requires
            old(self).wf(),
        ensures
            final(self).wf(),
            final(self).cache.entries_view().len() == 0,
            final(self).cache.clock() == 0,
            final(self).stats == (CacheStats {
                total_requests: 0,
                cache_hits: 0,
                cache_misses: 0,
                current_size: 0,
                max_size: old(self).stats.max_size,
            }),
    {
        self.cache.clear();
        self.stats.total_requests = 0;
        self.stats.cache_hits = 0;
        self.stats.cache_misses = 0;
        self.stats.current_size = 0;
    }

    /// A snapshot of the statistics with the entry count freshly read from
    /// the live cache.
    pub fn get_stats(&mut self) -> (r: CacheStats)
        requires
            old(self).wf(),
        ensures
            final(self).wf(),
            final(self).cache == old(self).cache,
            r == (CacheStats {
                current_size: old(self).cache.entries_view().len() as usize,
                ..old(self).stats
            }),
            final(self).stats == r,
    {
        self.stats.current_size = self.cache.len();
        self.stats
    }

    /// Whether a name is cached; counted as no request, but it refreshes
    /// the entry's recency exactly as a lookup would.
    pub fn contains_key(&mut self, key: &str) -> (r: bool)
        requires
            old(self).wf(),
        ensures
            final(self).wf(),
            r == old(self).cache.contains(key@),
            r ==> get_hit_result(old(self).cache, key@, final(self).cache),
            !r ==> final(self).cache == old(self).cache,
            final(self).stats == old(self).stats,
    {
        let owned = key.to_owned();
        self.cache.get(&owned).is_some()
    }

    /// How many sequences are cached.
    pub fn size(&self) -> (r: usize)
        ensures
            r == self.cache.entries_view().len(),
    {
        self.cache.len()
    }

    /// The cache's capacity.
    pub fn capacity(&self) -> (r: usize)
        ensures
            r == self.cache.spec_capacity(),
    {
        self.cache.capacity()
    }

    /// Whether nothing is cached.
    pub fn is_empty(&self) -> (r: bool)
        ensures
            r == (self.cache.entries_view().len() == 0),
    {
        self.cache.is_empty()
    }
}

} // verus!
