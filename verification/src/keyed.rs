//! A map whose keys are tuples of addresses.

use std::collections::HashMap;
use vstd::prelude::*;

verus! {

broadcast use vstd::std_specs::hash::group_hash_axioms;

/// A key of a map: an address that picks a bucket, and more that tells the keys of a
/// bucket apart.
pub trait Key: Sized {
    /// The bucket of the key.
    spec fn home(self) -> usize;

    /// The bucket of the key.
    fn bucket(&self) -> (bucket: usize)
        ensures
            bucket == self.home(),
    ;

    /// Tells whether two keys are the same.
    fn same(&self, other: &Self) -> (same: bool)
        ensures
            same == (*self == *other),
    ;
}

impl Key for (usize, usize) {
    open spec fn home(self) -> usize {
        self.0
    }

    fn bucket(&self) -> (bucket: usize) {
        self.0
    }

    fn same(&self, other: &Self) -> (same: bool) {
        self.0 == other.0 && self.1 == other.1
    }
}

impl Key for (usize, usize, usize) {
    open spec fn home(self) -> usize {
        self.0
    }

    fn bucket(&self) -> (bucket: usize) {
        self.0
    }

    fn same(&self, other: &Self) -> (same: bool) {
        self.0 == other.0 && self.1 == other.1 && self.2 == other.2
    }
}

/// A map from keys to values.
#[verifier::reject_recursive_types(K)]
#[derive(Debug)]
pub struct KeyedMap<K: Key, V> {
    buckets: HashMap<usize, Vec<(K, V)>>,
    len: usize,
}

/// Tells whether the entries of a bucket belong there, and have different keys.
spec fn bucket_wf<K: Key, V>(entries: Seq<(K, V)>, bucket: usize) -> bool {
    &&& forall|i: int| 0 <= i < entries.len() ==> (#[trigger] entries[i]).0.home() == bucket
    &&& forall|i: int, j: int|
        0 <= i < j < entries.len() ==> (#[trigger] entries[i]).0 != (#[trigger] entries[j]).0
}

/// Tells whether there is an entry under `key`.
spec fn holds<K, V>(entries: Seq<(K, V)>, key: K) -> bool {
    exists|i: int| 0 <= i < entries.len() && (#[trigger] entries[i]).0 == key
}

/// The value of the entry under `key`.
spec fn value_under<K, V>(entries: Seq<(K, V)>, key: K) -> V {
    let i = choose|i: int| 0 <= i < entries.len() && (#[trigger] entries[i]).0 == key;
    entries[i].1
}

/// The index of the entry under `key`, or the number of entries if there is none.
fn position<K: Key, V>(entries: &Vec<(K, V)>, key: &K) -> (r: usize)
    ensures
        r <= entries@.len(),
        r < entries@.len() ==> entries@[r as int].0 == *key,
        r == entries@.len() ==> forall|i: int|
            0 <= i < entries@.len() ==> (#[trigger] entries@[i]).0 != *key,
{
    let mut i: usize = 0;
    while i < entries.len()
        invariant
            i <= entries@.len(),
            forall|j: int| 0 <= j < i ==> (#[trigger] entries@[j]).0 != *key,
        decreases entries@.len() - i,
    {
        if entries[i].0.same(key) {
            return i;
        }
        i += 1;
    }
    i
}

impl<K: Key, V> View for KeyedMap<K, V> {
    type V = Map<K, V>;

    closed spec fn view(&self) -> Map<K, V> {
        Map::new(
            |key: K|
                self.buckets@.contains_key(key.home()) && holds(
                    self.buckets@[key.home()]@,
                    key,
                ),
            |key: K| value_under(self.buckets@[key.home()]@, key),
        )
    }
}

impl<K: Key, V> KeyedMap<K, V> {
    /// Each entry stands once, in its bucket, and `len` counts the entries.
    pub closed spec fn wf(self) -> bool {
        &&& self@.dom().finite()
        &&& self.len == self@.dom().len()
        &&& forall|bucket: usize| #[trigger]
            self.buckets@.contains_key(bucket) ==> bucket_wf(self.buckets@[bucket]@, bucket)
    }

    /// A map without entries.
    pub fn new() -> (r: KeyedMap<K, V>)
        ensures
            r.wf(),
            r@ == Map::<K, V>::empty(),
    {
        let r = KeyedMap { buckets: HashMap::new(), len: 0 };
        assert(r@ =~= Map::empty());
        r
    }

    /// The number of entries.
    pub fn len(&self) -> (len: usize)
        requires
            self.wf(),
        ensures
            len == self@.dom().len(),
            self@.dom().finite(),
    {
        self.len
    }

    /// The value under `key`.
    pub fn get(&self, key: &K) -> (value: Option<&V>)
        requires
            self.wf(),
        ensures
            match value {
                Some(value) => self@.contains_key(*key) && *value == self@[*key],
                None => !self@.contains_key(*key),
            },
    {
        match self.buckets.get(&key.bucket()) {
            Some(entries) => {
                let i: usize = position(entries, key);
                if i < entries.len() {
                    assert(entries@[i as int].0 == *key);
                    Some(&entries[i].1)
                } else {
                    None
                }
            },
            None => None,
        }
    }

    /// Puts `value` under `key`, in place of what was there.
    pub fn insert(&mut self, key: K, value: V)
        requires
            old(self).wf(),
            old(self)@.dom().len() < usize::MAX,
        ensures
            final(self).wf(),
            final(self)@ == old(self)@.insert(key, value),
    {
        let bucket: usize = key.bucket();
        let ghost before = self@;
        let mut entries: Vec<(K, V)> = match self.buckets.remove(&bucket) {
            Some(entries) => entries,
            None => Vec::new(),
        };
        let ghost old_entries = entries@;
        let i: usize = position(&entries, &key);
        assert(holds(old_entries, key) == before.contains_key(key));
        if i < entries.len() {
            entries.set(i, (key, value));
        } else {
            entries.push((key, value));
            self.len = self.len + 1;
        }
        let ghost new_entries = entries@;
        self.buckets.insert(bucket, entries);
        proof {
            assert(new_entries[i as int] == (key, value));
            assert forall|k: K| k != key implies {
                &&& holds(new_entries, k) == #[trigger] holds(old_entries, k)
                &&& holds(old_entries, k) ==> value_under(new_entries, k) == value_under(
                    old_entries,
                    k,
                )
            } by {
                if holds(new_entries, k) {
                    let j = choose|j: int|
                        0 <= j < new_entries.len() && (#[trigger] new_entries[j]).0 == k;
                    assert(old_entries[j] == new_entries[j]);
                }
                if holds(old_entries, k) {
                    let j = choose|j: int|
                        0 <= j < old_entries.len() && (#[trigger] old_entries[j]).0 == k;
                    assert(old_entries[j] == new_entries[j]);
                }
            }
            assert(self@ =~= before.insert(key, value));
        }
    }
}

} // verus!
