//! A bounded cache that evicts the least-recently-accessed entry.
//!
//! The cache maps `String` keys to values and never holds more than
//! `capacity` entries.  Recency is tracked by position: the entries are kept
//! in a list ordered from least recently accessed (front) to most recently
//! accessed (back), a deliberate substitute for a per-entry wall-clock stamp
//! that keeps the observable contract — the least-recently-accessed entry is
//! evicted first — while making victim selection deterministic.
//!
//! The abstract model of a cache is the sequence of its `(key, value)` pairs
//! in recency order.  A successful `get` moves the accessed pair to the back;
//! `set` inserts at the back, evicting the front pair when a new key would
//! exceed capacity.
//!
//! A cache constructed with capacity 0 can never hold an entry: `set` on such
//! a cache is a no-op.  This is the chosen policy for that degenerate
//! configuration; construction itself never fails.

use vstd::prelude::*;

verus! {

/// One stored value.  Its recency is the position of its pair in the owning
/// cache's recency-ordered list, not a field of its own.
pub struct CacheEntry<T> {
    pub(crate) value: T,
}

/// A bounded recency cache: at most `capacity` entries, least recently
/// accessed evicted first.
pub struct LRUCache<T> {
    data: Vec<(String, CacheEntry<T>)>,
    capacity: usize,
}

/// No two pairs of `s` carry the same key.
pub open spec fn distinct_keys<T>(s: Seq<(Seq<char>, T)>) -> bool {
    forall|i: int, j: int| 0 <= i < j < s.len() ==> s[i].0 != s[j].0
}

/// Some pair of `s` carries the key `k`.
pub open spec fn has_key<T>(s: Seq<(Seq<char>, T)>, k: Seq<char>) -> bool {
    exists|i: int| 0 <= i < s.len() && s[i].0 == k
}

/// The position of the pair of `s` that carries `k`; meaningful when the
/// keys are distinct and `k` is present.
pub open spec fn key_index<T>(s: Seq<(Seq<char>, T)>, k: Seq<char>) -> int {
    choose|i: int| 0 <= i < s.len() && s[i].0 == k
}

/// The model of a cache with contents `s` and capacity `cap` after
/// `set(k, v)`: an existing key is overwritten and its pair moves to the
/// back; a new key is appended, first evicting the front pair — the least
/// recently accessed — when the cache is full; on a zero-capacity cache
/// nothing changes.
pub open spec fn set_effect<T>(s: Seq<(Seq<char>, T)>, cap: usize, k: Seq<char>, v: T) -> Seq<
    (Seq<char>, T),
> {
    if has_key(s, k) {
        s.remove(key_index(s, k)).push((k, v))
    } else if s.len() < cap {
        s.push((k, v))
    } else if cap > 0 {
        s.subrange(1, s.len() as int).push((k, v))
    } else {
        s
    }
}

impl<T> View for LRUCache<T> {
    type V = Seq<(Seq<char>, T)>;

    /// The pairs of the cache, ordered from least recently accessed to most
    /// recently accessed.
    closed spec fn view(&self) -> Seq<(Seq<char>, T)> {
        self.data@.map_values(|p: (String, CacheEntry<T>)| (p.0@, p.1.value))
    }
}

impl<T> LRUCache<T> {
    /// The capacity fixed at construction.
    pub closed spec fn spec_capacity(&self) -> usize {
        self.capacity
    }

    /// Validity: the bound holds and keys are unique.  Established by `new`
    /// and preserved by every operation.
    pub open spec fn wf(&self) -> bool {
        &&& self@.len() <= self.spec_capacity()
        &&& distinct_keys(self@)
    }

    /// An empty cache that will never hold more than `capacity` entries.
    pub fn new(capacity: usize) -> (r: Self)
        ensures
            r@ == Seq::<(Seq<char>, T)>::empty(),
            r.spec_capacity() == capacity,
            r.wf(),
    {
        LRUCache { data: Vec::new(), capacity }
    }

    /// How many entries the cache holds now.
    pub fn len(&self) -> (r: usize)
        ensures
            r == self@.len(),
    {
        self.data.len()
    }

    /// The capacity fixed at construction.
    pub fn capacity(&self) -> (r: usize)
        ensures
            r == self.spec_capacity(),
    {
        self.capacity
    }

    /// The position of `key`'s pair, or `None` when `key` is absent.
    fn find(&self, key: &str) -> (r: Option<usize>)
        ensures
            match r {
                Some(i) => i < self@.len() && self@[i as int].0 == key@,
                None => !has_key(self@, key@),
            },
    {
        let mut i: usize = 0;
        while i < self.data.len()
            invariant
                i <= self.data.len(),
                forall|j: int| 0 <= j < i ==> self@[j].0 != key@,
            decreases self.data.len() - i,
        {
            if str_eq(self.data[i].0.as_str(), key) {
                return Some(i);
            }
            i = i + 1;
        }
        None
    }

    /// Removes `key`'s entry if present and reports whether it existed.
    /// Removal of an absent key changes nothing; after the call the key is
    /// absent either way.
    pub fn remove(&mut self, key: &str) -> (r: bool)
        requires
            old(self).wf(),
        ensures
            final(self).wf(),
            final(self).spec_capacity() == old(self).spec_capacity(),
            !has_key(final(self)@, key@),
            has_key(old(self)@, key@) ==> r && final(self)@ == old(self)@.remove(
                key_index(old(self)@, key@),
            ),
            !has_key(old(self)@, key@) ==> !r && final(self)@ == old(self)@,
    {
        match self.find(key) {
            Some(i) => {
                self.data.remove(i);
                proof {
                    assert(self@ =~= old(self)@.remove(i as int));
                    assert(key_index(old(self)@, key@) == i);
                }
                true
            },
            None => false,
        }
    }

    /// Looks `key` up; on a hit the entry becomes the most recently accessed
    /// one (its pair moves to the back of the recency order) and a reference
    /// to the value is returned.  A miss changes nothing.
    pub fn get(&mut self, key: &str) -> (r: Option<&T>)
        requires
            old(self).wf(),
        ensures
            final(self).wf(),
            final(self).spec_capacity() == old(self).spec_capacity(),
            final(self)@.len() == old(self)@.len(),
            !has_key(old(self)@, key@) ==> r is None && final(self)@ == old(self)@,
            has_key(old(self)@, key@) ==> ({
                let i = key_index(old(self)@, key@);
                &&& r matches Some(v) && *v == old(self)@[i].1
                &&& final(self)@ == old(self)@.remove(i).push(old(self)@[i])
            }),
    {
        match self.find(key) {
            Some(i) => {
                proof {
                    assert(key_index(old(self)@, key@) == i);
                }
                let pair = self.data.remove(i);
                self.data.push(pair);
                proof {
                    assert(self@ =~= old(self)@.remove(i as int).push(old(self)@[i as int]));
                }
                let n = self.data.len();
                Some(&self.data[n - 1].1.value)
            },
            None => None,
        }
    }

    /// Stores `value` under `key`.  An existing key is overwritten and its
    /// pair moves to the back of the recency order — never an eviction; a
    /// new key is appended, first evicting the least-recently-accessed
    /// entry — the front pair — when the cache is full.  On a zero-capacity
    /// cache `set` is a no-op.
    pub fn set(&mut self, key: String, value: T)
        requires
            old(self).wf(),
        ensures
            final(self).wf(),
            final(self).spec_capacity() == old(self).spec_capacity(),
            final(self)@ == set_effect(old(self)@, old(self).spec_capacity(), key@, value),
            has_key(old(self)@, key@) ==> final(self)@.len() == old(self)@.len(),
    {
        match self.find(key.as_str()) {
            Some(i) => {
                proof {
                    assert(key_index(old(self)@, key@) == i);
                }
                self.data.remove(i);
                self.data.push((key, CacheEntry { value }));
                proof {
                    assert(self@ =~= old(self)@.remove(i as int).push((key@, value)));
                }
            },
            None => {
                if self.capacity == 0 {
                    return;
                }
                if self.data.len() == self.capacity {
                    self.data.remove(0);
                    proof {
                        assert(self@ =~= old(self)@.subrange(1, old(self)@.len() as int));
                    }
                }
                self.data.push((key, CacheEntry { value }));
                proof {
                    if old(self)@.len() == old(self).spec_capacity() {
                        assert(self@ =~= old(self)@.subrange(1, old(self)@.len() as int).push(
                            (key@, value),
                        ));
                    } else {
                        assert(self@ =~= old(self)@.push((key@, value)));
                    }
                }
            },
        }
    }
}

/// Capacity invariant: a valid cache never holds more entries than its
/// capacity.  `new` establishes validity and every operation preserves it,
/// so the bound holds after any sequence of calls.
pub proof fn lemma_capacity_invariant<T>(c: &LRUCache<T>)
    requires
        c.wf(),
    ensures
        c@.len() <= c.spec_capacity(),
{
}

/// Eviction correctness, read side: a hit on `k` moves `k`'s pair to the
/// back of the recency order, so `k` is not the next eviction victim — the
/// front pair — as long as any other entry remains.
pub proof fn lemma_read_protects_from_eviction<T>(s: Seq<(Seq<char>, T)>, k: Seq<char>)
    requires
        distinct_keys(s),
        has_key(s, k),
        s.len() >= 2,
    ensures
        ({
            let i = key_index(s, k);
            let bumped = s.remove(i).push(s[i]);
            bumped[0].0 != k
        }),
{
    let i = key_index(s, k);
    let bumped = s.remove(i).push(s[i]);
    if i == 0 {
        assert(bumped[0] == s[1]);
    } else {
        assert(bumped[0] == s[0]);
    }
}

/// Eviction correctness, victim side: inserting a new key into a full cache
/// removes exactly the front pair — the least recently accessed one — while
/// every other pair survives in its recency order.
pub proof fn lemma_eviction_removes_oldest<T>(s: Seq<(Seq<char>, T)>, k: Seq<char>, v: T)
    requires
        distinct_keys(s),
        !has_key(s, k),
        s.len() >= 1,
    ensures
        ({
            let after = s.subrange(1, s.len() as int).push((k, v));
            &&& after.len() == s.len()
            &&& !has_key(after, s[0].0)
            &&& forall|j: int| 1 <= j < s.len() ==> after[j - 1] == s[j]
        }),
{
    let after = s.subrange(1, s.len() as int).push((k, v));
    assert forall|m: int| 0 <= m < after.len() implies after[m].0 != s[0].0 by {
        if m < s.len() - 1 {
            assert(after[m] == s[m + 1]);
        } else {
            assert(after[m].0 == k);
            assert(s[0].0 != k);
        }
    }
}

/// Overwrite does not evict: `set` on a present key keeps the entry count
/// and keeps exactly the keys that were present before.
pub proof fn lemma_overwrite_does_not_evict<T>(s: Seq<(Seq<char>, T)>, k: Seq<char>, v: T)
    requires
        distinct_keys(s),
        has_key(s, k),
    ensures
        ({
            let after = s.remove(key_index(s, k)).push((k, v));
            &&& after.len() == s.len()
            &&& forall|k2: Seq<char>| has_key(after, k2) <==> has_key(s, k2)
        }),
{
    let i = key_index(s, k);
    let after = s.remove(i).push((k, v));
    assert forall|k2: Seq<char>| has_key(after, k2) implies has_key(s, k2) by {
        let m = choose|m: int| 0 <= m < after.len() && after[m].0 == k2;
        if m == after.len() - 1 {
            assert(s[i].0 == k2);
        } else if m < i {
            assert(s[m].0 == k2);
        } else {
            assert(s[m + 1].0 == k2);
        }
    }
    assert forall|k2: Seq<char>| has_key(s, k2) implies has_key(after, k2) by {
        let m = choose|m: int| 0 <= m < s.len() && s[m].0 == k2;
        if m == i {
            assert(after[after.len() - 1].0 == k2);
        } else if m < i {
            assert(after[m].0 == k2);
        } else {
            assert(after[m - 1].0 == k2);
        }
    }
}

/// Relies on `<str as PartialEq>::eq`: two string slices are equal exactly
/// when they consist of the same characters.
#[verifier::external_body]
pub(crate) fn str_eq(a: &str, b: &str) -> (r: bool)
    ensures
        r == (a@ == b@),
{
    a == b
}

} // verus!
