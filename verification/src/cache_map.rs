//! A cache of query results that expire.
//!
//! Time is what the caller says it is: seconds since the Unix epoch.

use crate::text::str_equal;
use vstd::prelude::*;
use vstd::string::*;

verus! {

/// How long a query result is kept: twenty-four hours, in seconds.
pub const TIME_TO_LIVE: u64 = 86400u64;

/// Tells whether two keys are made of the same parts.
pub fn same_parts(first: &Vec<String>, second: &Vec<String>) -> (r: bool)
    ensures
        r == (first.deep_view() == second.deep_view()),
{
    if first.len() != second.len() {
        assert(first.deep_view().len() != second.deep_view().len());
        return false;
    }
    let mut i: usize = 0;
    while i < first.len()
        invariant
            i <= first.len(),
            first.len() == second.len(),
            forall|j: int| 0 <= j < i ==> first@[j]@ == second@[j]@,
        decreases first.len() - i,
    {
        if !str_equal(first[i].as_str(), second[i].as_str()) {
            assert(first.deep_view()[i as int] == first@[i as int]@);
            assert(second.deep_view()[i as int] == second@[i as int]@);
            return false;
        }
        i += 1;
    }
    assert(first.deep_view() =~= second.deep_view());
    true
}

/// One cached value with its key and the time at which it expires. A key
/// is made of parts, and two keys are the same where their parts are.
pub struct CacheEntry<V> {
    pub key: Vec<String>,
    pub value: V,
    pub expires_at: u64,
}

/// The index of the first entry under `key`, or the number of entries when
/// there is none.
pub open spec fn position<V>(entries: Seq<CacheEntry<V>>, key: Seq<Seq<char>>) -> int
    decreases entries.len(),
{
    if entries.len() == 0 {
        0
    } else if entries[0].key.deep_view() == key {
        0
    } else {
        1 + position(entries.drop_first(), key)
    }
}

/// [`position`] is in range, no earlier entry has the key, and the entry
/// there has it.
pub proof fn lemma_position<V>(entries: Seq<CacheEntry<V>>, key: Seq<Seq<char>>)
    ensures
        0 <= position(entries, key) <= entries.len(),
        forall|j: int| 0 <= j < position(entries, key) ==> entries[j].key.deep_view() != key,
        position(entries, key) < entries.len() ==> entries[position(entries, key)].key.deep_view() == key,
    decreases entries.len(),
{
    if entries.len() == 0 {
    } else if entries[0].key.deep_view() == key {
    } else {
        let rest = entries.drop_first();
        lemma_position(rest, key);
        assert forall|j: int| 0 <= j < position(entries, key) implies entries[j].key.deep_view() != key by {
            if j > 0 {
                assert(entries[j] == rest[j - 1]);
            }
        }
        if position(rest, key) < rest.len() {
            assert(entries[position(entries, key)] == rest[position(rest, key)]);
        }
    }
}

/// A place that no entry under the key precedes, and where such an entry
/// stands or the entries end, is the [`position`].
pub proof fn lemma_position_is<V>(entries: Seq<CacheEntry<V>>, key: Seq<Seq<char>>, k: int)
    requires
        0 <= k <= entries.len(),
        forall|j: int| 0 <= j < k ==> entries[j].key.deep_view() != key,
        k < entries.len() ==> entries[k].key.deep_view() == key,
    ensures
        position(entries, key) == k,
{
    lemma_position(entries, key);
    let p = position(entries, key);
    if p < k {
        assert(entries[p].key.deep_view() == key);
    } else if p > k {
        assert(entries[k].key.deep_view() != key);
    }
}

/// What the entries hold under `key` at `now`: the value of the first entry
/// under the key, if it has not expired.
pub open spec fn fresh<V>(entries: Seq<CacheEntry<V>>, key: Seq<Seq<char>>, now: u64) -> Option<V> {
    let p = position(entries, key);
    if p < entries.len() && entries[p].expires_at > now {
        Some(entries[p].value)
    } else {
        None
    }
}

/// The entries with `value` stored under `key`: in place of the first entry
/// under the key, or as a new last entry.
pub open spec fn stored<V>(
    entries: Seq<CacheEntry<V>>,
    key: Vec<String>,
    value: V,
    expires_at: u64,
) -> Seq<CacheEntry<V>> {
    let p = position(entries, key.deep_view());
    let entry = CacheEntry { key, value, expires_at };
    if p < entries.len() {
        entries.update(p, entry)
    } else {
        entries.push(entry)
    }
}

/// The entries without the first entry under `key`.
pub open spec fn dropped<V>(entries: Seq<CacheEntry<V>>, key: Seq<Seq<char>>) -> Seq<CacheEntry<V>> {
    let p = position(entries, key);
    if p < entries.len() {
        entries.remove(p)
    } else {
        entries
    }
}

/// Whether no two entries share a key.
pub open spec fn distinct_keys<V>(entries: Seq<CacheEntry<V>>) -> bool {
    forall|i: int, j: int|
        0 <= i < j < entries.len() ==> (#[trigger] entries[i]).key.deep_view() != (#[trigger] entries[j]).key.deep_view()
}

/// A cache from keys to values that expire.
pub struct CacheMap<V> {
    entries: Vec<CacheEntry<V>>,
}

impl<V> CacheMap<V> {
    /// The entries of the cache.
    pub closed spec fn entries(&self) -> Seq<CacheEntry<V>> {
        self.entries@
    }

    /// What holds of every cache: no two entries share a key.
    #[verifier::type_invariant]
    pub open spec fn well_formed(&self) -> bool {
        distinct_keys(self.entries())
    }

    /// What the cache holds under `key` at `now`.
    pub open spec fn cached(&self, key: Seq<Seq<char>>, now: u64) -> Option<V> {
        fresh(self.entries(), key, now)
    }

    /// An empty cache.
    pub fn new() -> (r: Self)
        ensures
            r.entries() == Seq::<CacheEntry<V>>::empty(),
    {
        CacheMap { entries: Vec::new() }
    }

    fn index_of(&self, key: &Vec<String>) -> (r: usize)
        ensures
            r == position(self.entries(), key.deep_view()),
            r <= self.entries.len(),
    {
        let mut i: usize = 0;
        while i < self.entries.len()
            invariant
                i <= self.entries.len(),
                forall|j: int| 0 <= j < i ==> self.entries@[j].key.deep_view() != key.deep_view(),
            decreases self.entries.len() - i,
        {
            if same_parts(&self.entries[i].key, key) {
                proof {
                    lemma_position_is(self.entries@, key.deep_view(), i as int);
                }
                return i;
            }
            i += 1;
        }
        proof {
            lemma_position_is(self.entries@, key.deep_view(), i as int);
        }
        i
    }

    /// The value under `key`, unless there is none or it has expired at
    /// `now`.
    pub fn get(&self, key: &Vec<String>, now: u64) -> (r: Option<&V>)
        ensures
            match r {
                Some(value) => self.cached(key.deep_view(), now) == Some(*value),
                None => self.cached(key.deep_view(), now) is None,
            },
    {
        let i = self.index_of(key);
        if i < self.entries.len() && self.entries[i].expires_at > now {
            Some(&self.entries[i].value)
        } else {
            None
        }
    }

    /// Stores `value` under `key` until `expires_at`, in place of what was
    /// stored under the key before.
    pub fn insert(&mut self, key: Vec<String>, value: V, expires_at: u64)
        ensures
            final(self).entries() == stored(old(self).entries(), key, value, expires_at),
    {
        let i = self.index_of(&key);
        let ghost before = self.entries@;
        proof {
            use_type_invariant(&*self);
            lemma_position(before, key.deep_view());
        }
        let mut entries: Vec<CacheEntry<V>> = Vec::new();
        core::mem::swap(&mut self.entries, &mut entries);
        if i < entries.len() {
            entries.set(i, CacheEntry { key, value, expires_at });
        } else {
            entries.push(CacheEntry { key, value, expires_at });
        }
        self.entries = entries;
    }

    /// Forgets what is stored under `key`.
    pub fn remove(&mut self, key: &Vec<String>)
        ensures
            final(self).entries() == dropped(old(self).entries(), key.deep_view()),
    {
        let i = self.index_of(key);
        proof {
            use_type_invariant(&*self);
        }
        if i < self.entries.len() {
            let mut entries: Vec<CacheEntry<V>> = Vec::new();
            core::mem::swap(&mut self.entries, &mut entries);
            let _ = entries.remove(i);
            self.entries = entries;
        }
    }

    /// Forgets everything.
    pub fn clear(&mut self)
        ensures
            final(self).entries() == Seq::<CacheEntry<V>>::empty(),
    {
        self.entries = Vec::new();
    }
}

/// What was stored under a key is found under it until it expires.
pub proof fn lemma_stored_is_cached<V>(
    entries: Seq<CacheEntry<V>>,
    key: Vec<String>,
    value: V,
    expires_at: u64,
    now: u64,
)
    ensures
        fresh(stored(entries, key, value, expires_at), key.deep_view(), now) == if now < expires_at {
            Some(value)
        } else {
            None
        },
{
    lemma_position(entries, key.deep_view());
    let p = position(entries, key.deep_view());
    let after = stored(entries, key, value, expires_at);
    assert forall|j: int| 0 <= j < p implies after[j].key.deep_view() != key.deep_view() by {
        assert(after[j] == entries[j]);
    }
    lemma_position_is(after, key.deep_view(), p);
}

/// Storing under one key leaves what is found under every other key.
pub proof fn lemma_stored_keeps_others<V>(
    entries: Seq<CacheEntry<V>>,
    key: Vec<String>,
    value: V,
    expires_at: u64,
    other: Seq<Seq<char>>,
    now: u64,
)
    requires
        other != key.deep_view(),
    ensures
        fresh(stored(entries, key, value, expires_at), other, now) == fresh(entries, other, now),
{
    lemma_position(entries, key.deep_view());
    lemma_position(entries, other);
    let q = position(entries, other);
    let after = stored(entries, key, value, expires_at);
    assert forall|j: int| 0 <= j < q implies after[j].key.deep_view() != other by {
        if j < entries.len() && j != position(entries, key.deep_view()) {
            assert(after[j] == entries[j]);
        }
    }
    if q < entries.len() {
        assert(after[q] == entries[q]);
        lemma_position_is(after, other, q);
    } else {
        lemma_position_is(after, other, after.len() as int);
    }
}

/// After a key was dropped from a cache whose keys are distinct, nothing is
/// found under it.
pub proof fn lemma_dropped_is_gone<V>(entries: Seq<CacheEntry<V>>, key: Seq<Seq<char>>, now: u64)
    requires
        distinct_keys(entries),
    ensures
        fresh(dropped(entries, key), key, now) is None,
{
    lemma_position(entries, key);
    let p = position(entries, key);
    let after = dropped(entries, key);
    assert forall|j: int| 0 <= j < after.len() implies after[j].key.deep_view() != key by {
        if p < entries.len() {
            if j < p {
                assert(after[j] == entries[j]);
            } else {
                assert(after[j] == entries[j + 1]);
                assert(entries[p].key.deep_view() != entries[j + 1].key.deep_view());
            }
        }
    }
    lemma_position_is(after, key, after.len() as int);
}

/// What is found in a cache at a time was found there at every earlier
/// time: values leave a cache by expiring, never by the clock alone
/// bringing in another.
pub proof fn lemma_cached_earlier<V>(
    entries: Seq<CacheEntry<V>>,
    key: Seq<Seq<char>>,
    earlier: u64,
    later: u64,
)
    requires
        earlier <= later,
        fresh(entries, key, later) is Some,
    ensures
        fresh(entries, key, earlier) == fresh(entries, key, later),
{
}

} // verus!
