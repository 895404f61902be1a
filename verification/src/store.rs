//! The cache store: results kept under their keys, in buckets by the hash of the key.

use vstd::prelude::*;
use std::collections::HashMap;
use crate::key::{CacheKey, KeyView, key_hash, key_matches, same_content};

verus! {

/// A key with the result stored under it.
pub struct Entry<R> {
    key: CacheKey,
    value: R,
}

/// The mathematical value of an `Entry`.
pub ghost struct Slot<R> {
    pub key: KeyView,
    pub value: R,
}

impl<R> View for Entry<R> {
    type V = Slot<R>;

    closed spec fn view(&self) -> Slot<R> {
        Slot { key: self.key@, value: self.value }
    }
}

/// The results of one memoized function, each under the key of the call that gave it.
pub struct Cache<R> {
    buckets: HashMap<u64, Vec<Entry<R>>>,
}

/// The mathematical value of each entry of a bucket, in order.
pub open spec fn slots_of<R>(entries: Seq<Entry<R>>) -> Seq<Slot<R>> {
    Seq::new(entries.len(), |i: int| entries[i]@)
}

impl<R> View for Cache<R> {
    type V = Map<u64, Seq<Slot<R>>>;

    /// For each hash that a stored key has, the entries with that hash, oldest first.
    closed spec fn view(&self) -> Map<u64, Seq<Slot<R>>> {
        Map::new(|h: u64| self.buckets@.contains_key(h), |h: u64| slots_of(self.buckets@[h]@))
    }
}

/// The entries with the given hash, oldest first.
pub open spec fn bucket_of<R>(store: Map<u64, Seq<Slot<R>>>, h: u64) -> Seq<Slot<R>> {
    if store.contains_key(h) {
        store[h]
    } else {
        Seq::empty()
    }
}

/// The position of the first of the first `n` entries of a bucket whose key equals `key`.
pub open spec fn first_match<R>(bucket: Seq<Slot<R>>, key: KeyView, n: int) -> Option<int>
    decreases n,
{
    if n <= 0 {
        None
    } else {
        match first_match(bucket, key, n - 1) {
            Some(i) => Some(i),
            None => if key_matches(key, bucket[n - 1].key) {
                Some(n - 1)
            } else {
                None
            },
        }
    }
}

/// The result stored for `key`: that of the oldest entry with the hash of `key`
/// whose key equals it.
pub open spec fn find<R>(store: Map<u64, Seq<Slot<R>>>, key: KeyView) -> Option<R> {
    let bucket = bucket_of(store, key_hash(key));
    match first_match(bucket, key, bucket.len() as int) {
        Some(i) => Some(bucket[i].value),
        None => None,
    }
}

/// A bucket after `value` is stored under `key`: the entry found for `key` keeps its
/// key and takes the value; where none is found, a new entry comes last.
pub open spec fn put_in_bucket<R>(bucket: Seq<Slot<R>>, key: KeyView, value: R) -> Seq<Slot<R>> {
    match first_match(bucket, key, bucket.len() as int) {
        Some(i) => bucket.update(i, Slot { key: bucket[i].key, value }),
        None => bucket.push(Slot { key, value }),
    }
}

/// A store after `value` is stored under `key`.
pub open spec fn put<R>(store: Map<u64, Seq<Slot<R>>>, key: KeyView, value: R) -> Map<
    u64,
    Seq<Slot<R>>,
> {
    store.insert(key_hash(key), put_in_bucket(bucket_of(store, key_hash(key)), key, value))
}

/// Whether every entry that a lookup of `key` would compare equal to it holds the
/// content of `key`. It fails only where an entry was stored for an address that
/// now has other content behind it.
pub open spec fn settled<R>(store: Map<u64, Seq<Slot<R>>>, key: KeyView) -> bool {
    let bucket = bucket_of(store, key_hash(key));
    forall|i: int|
        0 <= i < bucket.len() && key_matches(key, #[trigger] bucket[i].key) ==> same_content(
            key,
            bucket[i].key,
        )
}

fn position<R>(bucket: &Vec<Entry<R>>, key: &CacheKey) -> (at: Option<usize>)
    ensures
        first_match(slots_of(bucket@), key@, bucket@.len() as int) == match at {
            Some(i) => Some(i as int),
            None => None,
        },
        at is Some ==> at->0 < bucket@.len(),
{
    let mut i: usize = 0;
    while i < bucket.len()
        invariant
            i <= bucket.len(),
            first_match(slots_of(bucket@), key@, i as int) is None,
        decreases bucket.len() - i,
    {
        if key.matches(&bucket[i].key) {
            proof {
                assert(first_match(slots_of(bucket@), key@, i + 1) == Some(i as int));
                lemma_first_match_stays(slots_of(bucket@), key@, i + 1, bucket@.len() as int);
            }
            return Some(i);
        }
        i += 1;
    }
    None
}

proof fn lemma_first_match_stays<R>(bucket: Seq<Slot<R>>, key: KeyView, m: int, n: int)
    requires
        0 <= m <= n,
        first_match(bucket, key, m) is Some,
    ensures
        first_match(bucket, key, n) == first_match(bucket, key, m),
    decreases n - m,
{
    if m < n {
        lemma_first_match_stays(bucket, key, m, n - 1);
    }
}

impl<R> Cache<R> {
    /// A store with no entry.
    pub fn new() -> (cache: Cache<R>)
        ensures
            cache@ == Map::<u64, Seq<Slot<R>>>::empty(),
    {
        let cache = Cache { buckets: HashMap::new() };
        assert(cache@ =~= Map::<u64, Seq<Slot<R>>>::empty());
        cache
    }

    /// Looks up the result stored for `key` and returns a copy of it.
    /// The store keeps what it holds.
    pub fn lookup(&self, key: &CacheKey) -> (found: Option<R>) where R: Clone
        ensures
            match find(self@, key@) {
                Some(stored) => found is Some && cloned(stored, found->0),
                None => found is None,
            },
    {
        let h = key.digest();
        match self.buckets.get(&h) {
            Some(bucket) => {
                assert(bucket_of(self@, h) == slots_of(bucket@));
                match position(bucket, key) {
                    Some(i) => Some(bucket[i].value.clone()),
                    None => None,
                }
            },
            None => {
                assert(bucket_of(self@, h) == Seq::<Slot<R>>::empty());
                None
            },
        }
    }

    /// Stores `value` under `key`. Where an entry is found for `key`, it takes the
    /// value and keeps its own key; else a new entry is made.
    pub fn insert(&mut self, key: CacheKey, value: R)
        ensures
            final(self)@ == put(old(self)@, key@, value),
    {
        let h = key.digest();
        let mut bucket: Vec<Entry<R>> = match self.buckets.remove(&h) {
            Some(b) => b,
            None => Vec::new(),
        };
        assert(slots_of(bucket@) =~= bucket_of(old(self)@, h));
        let ghost before = slots_of(bucket@);
        match position(&bucket, &key) {
            Some(i) => {
                let stale = bucket.remove(i);
                bucket.insert(i, Entry { key: stale.key, value });
                assert(slots_of(bucket@) =~= put_in_bucket(before, key@, value));
            },
            None => {
                bucket.push(Entry { key, value });
                assert(slots_of(bucket@) =~= put_in_bucket(before, key@, value));
            },
        }
        self.buckets.insert(h, bucket);
        assert(self@ =~= put(old(self)@, key@, value));
    }

    /// Removes every entry.
    pub fn clear(&mut self)
        ensures
            final(self)@ == Map::<u64, Seq<Slot<R>>>::empty(),
    {
        self.buckets.clear();
        assert(self@ =~= Map::<u64, Seq<Slot<R>>>::empty());
    }
}

} // verus!
