//! A fixed-capacity recency cache: a bounded key-value store that evicts
//! the least-recently-touched entry.

use vstd::prelude::*;

verus! {

// `str` comparison is not specified by vstd; string slices make natural
// cache keys, so its documented meaning - equality of the character
// contents - is assumed here.
/// Relies on `<str as PartialEq>::eq`: two string slices compare equal
/// exactly when their characters are equal.
pub assume_specification[ <str as PartialEq>::eq ](a: &str, b: &str) -> (r: bool)
    ensures
        r == (a@ == b@),
;

/// A cache key: a value with a view that a single exec call can compare.
pub trait CacheKey: View {
    /// True exactly when the two keys have the same view.
    fn key_eq(&self, other: &Self) -> (r: bool)
        ensures
            r == (self@ == other@),
    ;
}

impl CacheKey for String {
    fn key_eq(&self, other: &Self) -> (r: bool)
        ensures
            r == (self@ == other@),
    {
        <String as PartialEq>::eq(self, other)
    }
}

impl<'a> CacheKey for &'a str {
    fn key_eq(&self, other: &Self) -> (r: bool)
        ensures
            r == (self@ == other@),
    {
        <str as PartialEq>::eq(*self, *other)
    }
}

/// The logical clock after one more tick. The clock saturates at the top of
/// its type, which no realistic run of increments reaches.
pub open spec fn tick(t: usize) -> usize {
    if t < usize::MAX {
        (t + 1) as usize
    } else {
        t
    }
}

/// The position of the entry with the numerically smallest stamp, earliest
/// position winning ties; 0 on a sequence of one (or, degenerately, none).
pub open spec fn first_min_stamp_index<K, V>(s: Seq<(K, V, usize)>) -> int
    decreases s.len(),
{
    if s.len() <= 1 {
        0
    } else {
        let r = first_min_stamp_index(s.drop_last());
        if s.last().2 < s[r].2 {
            s.len() - 1
        } else {
            r
        }
    }
}

/// The first minimal stamp's position is in range and minimal.
pub proof fn lemma_first_min_stamp_index<K, V>(s: Seq<(K, V, usize)>)
    requires
        s.len() > 0,
    ensures
        0 <= first_min_stamp_index(s) < s.len(),
        forall|i: int| 0 <= i < s.len() ==> s[first_min_stamp_index(s)].2 <= (#[trigger] s[i]).2,
    decreases s.len(),
{
    if s.len() > 1 {
        lemma_first_min_stamp_index(s.drop_last());
        assert(forall|i: int| 0 <= i < s.len() - 1 ==> s.drop_last()[i] == (#[trigger] s[i]));
    }
}

/// What a hit of `get` does to the store: the clock advances one tick and
/// the entry found under `k` is re-stamped with the new time, in place.
pub open spec fn get_hit_result<K: CacheKey, V>(
    pre: LRUCache<K, V>,
    k: <K as View>::V,
    post: LRUCache<K, V>,
) -> bool {
    &&& post.clock() == tick(pre.clock())
    &&& post.entries_view() == pre.entries_view().update(
        pre.index_of(k),
        (
            pre.entries_view()[pre.index_of(k)].0,
            pre.entries_view()[pre.index_of(k)].1,
            tick(pre.clock()),
        ),
    )
}

/// What `put` does to the store: the clock advances one tick; an existing
/// key is overwritten in place with the new value and stamp; a new key is
/// appended, preceded, when the store is already at capacity and nonempty,
/// by the eviction of the first entry with the smallest stamp.
pub open spec fn put_result<K: CacheKey, V>(
    pre: LRUCache<K, V>,
    key: K,
    value: V,
    post: LRUCache<K, V>,
) -> bool {
    &&& post.clock() == tick(pre.clock())
    &&& if pre.contains(key@) {
        post.entries_view() == pre.entries_view().update(
            pre.index_of(key@),
            (key, value, tick(pre.clock())),
        )
    } else if pre.entries_view().len() < pre.spec_capacity()
        || pre.entries_view().len() == 0 {
        post.entries_view() == pre.entries_view().push((key, value, tick(pre.clock())))
    } else {
        post.entries_view() == pre.entries_view().remove(
            first_min_stamp_index(pre.entries_view()),
        ).push((key, value, tick(pre.clock())))
    }
}

/// A bounded key-value store. Entries carry the logical time of their most
/// recent access; inserting a new key into a full cache first evicts the
/// entry with the smallest stamp (the earliest-positioned one on a tie).
pub struct LRUCache<K, V> {
    pub capacity: usize,
    pub entries: Vec<(K, V, usize)>,
    pub current_time: usize,
}

impl<K: CacheKey, V> LRUCache<K, V> {
    /// The stored entries, in position order: key, value, access stamp.
    pub open spec fn entries_view(self) -> Seq<(K, V, usize)> {
        self.entries@
    }

    /// The logical clock.
    pub open spec fn clock(self) -> usize {
        self.current_time
    }

    /// The configured capacity.
    pub open spec fn spec_capacity(self) -> usize {
        self.capacity
    }

    /// How many entries the store can actually hold: its capacity, but a
    /// zero-capacity store still holds the one entry each insertion leaves.
    pub open spec fn cap_limit(self) -> int {
        if self.capacity == 0 {
            1
        } else {
            self.capacity as int
        }
    }

    /// Some entry's key has this view.
    pub open spec fn contains(self, k: <K as View>::V) -> bool {
        exists|i: int| 0 <= i < self.entries@.len() && (#[trigger] self.entries@[i]).0@ == k
    }

    /// The position of the entry whose key has this view.
    pub open spec fn index_of(self, k: <K as View>::V) -> int {
        choose|i: int| 0 <= i < self.entries@.len() && (#[trigger] self.entries@[i]).0@ == k
    }

    /// The value stored under this key view.
    pub open spec fn value_of(self, k: <K as View>::V) -> V {
        self.entries@[self.index_of(k)].1
    }

    /// Well-formed: distinct keys, stamps no newer than the clock, and no
    /// more entries than the store can hold.
    pub open spec fn wf(self) -> bool {
        &&& forall|i: int, j: int|
            0 <= i < j < self.entries@.len() ==> (#[trigger] self.entries@[i]).0@ != (
            #[trigger] self.entries@[j]).0@
        &&& forall|i: int|
            0 <= i < self.entries@.len() ==> (#[trigger] self.entries@[i]).2 <= self.current_time
        &&& self.entries@.len() <= self.cap_limit()
    }

    /// An empty store with the given capacity and a zeroed clock.
    pub fn new(capacity: usize) -> (r: Self)
        ensures
            r.wf(),
            r.spec_capacity() == capacity,
            r.clock() == 0,
            r.entries_view() == Seq::<(K, V, usize)>::empty(),
    {
        let r = LRUCache { capacity, entries: Vec::new(), current_time: 0 };
        proof {
            assert(r.entries_view() =~= Seq::<(K, V, usize)>::empty());
        }
        r
    }

    /// The position of the entry with this key, if any.
    fn find(&self, key: &K) -> (r: Option<usize>)
        requires
            self.wf(),
        ensures
            match r {
                Some(i) => i < self.entries@.len() && self.entries@[i as int].0@ == key@
                    && i == self.index_of(key@),
                None => !self.contains(key@),
            },
    {
        let mut i: usize = 0;
        while i < self.entries.len()
            invariant
                self.wf(),
                i <= self.entries@.len(),
                forall|k: int| 0 <= k < i ==> (#[trigger] self.entries@[k]).0@ != key@,
            decreases self.entries@.len() - i,
        {
            if self.entries[i].0.key_eq(key) {
                proof {
                    assert((#[trigger] self.entries@[i as int]).0@ == key@);
                    assert(self.contains(key@));
                    let j = self.index_of(key@);
                    assert(0 <= j < self.entries@.len() && self.entries@[j].0@ == key@);
                    if j != i as int {
                        let a = if j < i as int { j } else { i as int };
                        let b = if j < i as int { i as int } else { j };
                        assert(0 <= a < b < self.entries@.len());
                        assert((#[trigger] self.entries@[a]).0@ != (#[trigger] self.entries@[b]).0@);
                        assert(false);
                    }
                }
                return Some(i);
            }
            i = i + 1;
        }
        None
    }

    /// Looks a key up; on a hit, advances the clock, stamps the entry with
    /// the new time and returns the value. A miss changes nothing.
    pub fn get(&mut self, key: &K) -> (r: Option<&V>)
        requires
            old(self).wf(),
        ensures
            final(self).wf(),
            final(self).spec_capacity() == old(self).spec_capacity(),
            match r {
                Some(v) => {
                    &&& old(self).contains(key@)
                    &&& *v == old(self).value_of(key@)
                    &&& get_hit_result(*old(self), key@, *final(self))
                },
                None => {
                    &&& !old(self).contains(key@)
                    &&& *final(self) == *old(self)
                },
            },
    {
        let found = self.find(key);
        match found {
            Some(i) => {
                self.current_time = saturating_inc(self.current_time);
                let entry = self.entries.remove(i);
                let stamped = (entry.0, entry.1, self.current_time);
                self.entries.insert(i, stamped);
                proof {
                    assert(self.entries@ =~= old(self).entries@.update(
                        i as int,
                        (
                            old(self).entries@[i as int].0,
                            old(self).entries@[i as int].1,
                            tick(old(self).clock()),
                        ),
                    ));
                }
                Some(&self.entries[i].1)
            },
            None => None,
        }
    }

    /// Inserts or updates. An existing key keeps its position and gets the
    /// new value and stamp; a new key is appended, after evicting the
    /// least-recently-stamped entry when the store is full.
    pub fn put(&mut self, key: K, value: V)
        requires
            old(self).wf(),
        ensures
            final(self).wf(),
            final(self).spec_capacity() == old(self).spec_capacity(),
            final(self).contains(key@),
            put_result(*old(self), key, value, *final(self)),
    {
        self.current_time = saturating_inc(self.current_time);
        let found = self.find(&key);
        match found {
            Some(i) => {
                let _ = self.entries.remove(i);
                self.entries.insert(i, (key, value, self.current_time));
                proof {
                    let gi = i as int;
                    assert(self.entries@ =~= old(self).entries@.update(
                        gi,
                        (key, value, tick(old(self).clock())),
                    ));
                    assert(self.entries@[gi].0@ == key@);
                }
            },
            None => {
                if self.entries.len() >= self.capacity {
                    self.evict_lru();
                }
                self.entries.push((key, value, self.current_time));
                proof {
                    let last = self.entries@.len() - 1;
                    assert(self.entries@[last].0@ == key@);
                    if old(self).entries@.len() >= old(self).capacity
                        && old(self).entries@.len() > 0 {
                        lemma_first_min_stamp_index(old(self).entries@);
                    }
                }
            },
        }
    }

    /// Removes the entry with the least-recently-touched stamp, keeping
    /// every other entry in order; does nothing to an empty store.
    fn evict_lru(&mut self)
        requires
            old(self).wf(),
        ensures
            final(self).spec_capacity() == old(self).spec_capacity(),
            final(self).clock() == old(self).clock(),
            if old(self).entries_view().len() == 0 {
                final(self).entries_view() == old(self).entries_view()
            } else {
                final(self).entries_view() == old(self).entries_view().remove(
                    first_min_stamp_index(old(self).entries_view()),
                )
            },
            final(self).wf(),
    {
        if self.entries.len() == 0 {
            return;
        }
        let mut best: usize = 0;
        let mut i: usize = 1;
        while i < self.entries.len()
            invariant
                self.entries@.len() > 0,
                best < i <= self.entries@.len(),
                best == first_min_stamp_index(self.entries@.subrange(0, i as int)),
            decreases self.entries@.len() - i,
        {
            proof {
                assert(self.entries@.subrange(0, i + 1).drop_last() =~= self.entries@.subrange(
                    0,
                    i as int,
                ));
                lemma_first_min_stamp_index(self.entries@.subrange(0, i as int));
            }
            if self.entries[i].2 < self.entries[best].2 {
                best = i;
            }
            i = i + 1;
        }
        proof {
            assert(self.entries@.subrange(0, self.entries@.len() as int) =~= self.entries@);
        }
        let _ = self.entries.remove(best);
    }

    /// Deletes the entry with this key, returning its value; the clock is
    /// untouched either way.
    pub fn remove(&mut self, key: &K) -> (r: Option<V>)
        requires
            old(self).wf(),
        ensures
            final(self).wf(),
            final(self).spec_capacity() == old(self).spec_capacity(),
            final(self).clock() == old(self).clock(),
            match r {
                Some(v) => {
                    &&& old(self).contains(key@)
                    &&& v == old(self).value_of(key@)
                    &&& final(self).entries_view() == old(self).entries_view().remove(
                        old(self).index_of(key@),
                    )
                },
                None => {
                    &&& !old(self).contains(key@)
                    &&& *final(self) == *old(self)
                },
            },
    {
        let found = self.find(key);
        match found {
            Some(i) => {
                let entry = self.entries.remove(i);
                Some(entry.1)
            },
            None => None,
        }
    }

    /// Empties the store and resets the clock to zero.
    pub fn clear(&mut self)
        ensures
            final(self).wf(),
            final(self).spec_capacity() == old(self).spec_capacity(),
            final(self).clock() == 0,
            final(self).entries_view() == Seq::<(K, V, usize)>::empty(),
    {
        self.entries.clear();
        self.current_time = 0;
    }

    /// How many entries are stored.
    pub fn len(&self) -> (r: usize)
        ensures
            r == self.entries_view().len(),
    {
        self.entries.len()
    }

    /// Whether no entry is stored.
    pub fn is_empty(&self) -> (r: bool)
        ensures
            r == (self.entries_view().len() == 0),
    {
        self.entries.len() == 0
    }

    /// The configured capacity.
    pub fn capacity(&self) -> (r: usize)
        ensures
            r == self.spec_capacity(),
    {
        self.capacity
    }
}

/// One clock tick, saturating at the top of the type.
fn saturating_inc(t: usize) -> (r: usize)
    ensures
        r == tick(t),
{
    if t < usize::MAX {
        t + 1
    } else {
        t
    }
}

} // verus!
