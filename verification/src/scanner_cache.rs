//! What the stack scanners remember of the profiled process.

use crate::keyed::KeyedMap;
use vstd::prelude::*;

verus! {

/// How many entries each cache takes at most: far more than any real process has
/// methods or iseqs, so it bounds memory use if a target makes them without limit.
pub const MAX_ENTRIES_PER_CACHE: usize = 100_000;

/// Frame details that are stable for a given (iseq, method entry, method definition)
/// triple, so that a frame is fully resolved only the first time it is seen.
#[derive(Debug)]
pub struct CachedFrameInfo {
    pub name: String,
    pub relative_path: String,
    pub absolute_path: Option<String>,
    /// Address of the iseq constant body that line numbers are resolved from. It also
    /// guards against stale entries: it must match the body pointer freshly read from
    /// the control frame's iseq, so a replaced iseq forces a full re-resolution.
    pub body_ptr: usize,
}

impl Clone for CachedFrameInfo {
    fn clone(&self) -> (r: CachedFrameInfo)
        ensures
            r == *self,
    {
        CachedFrameInfo {
            name: self.name.clone(),
            relative_path: self.relative_path.clone(),
            absolute_path: match &self.absolute_path {
                Some(path) => Some(path.clone()),
                None => None,
            },
            body_ptr: self.body_ptr,
        }
    }
}

/// What a cache holds.
#[verifier::ext_equal]
pub struct CacheModel {
    pub ec_pointer_slot: Option<usize>,
    pub cfunc_names: Map<(usize, usize, usize), Seq<char>>,
    pub classpaths: Map<(usize, usize), (Seq<char>, bool)>,
    pub frames: Map<(usize, usize, usize), CachedFrameInfo>,
}

/// `entries` once `value` is stored under `key`: a full cache takes nothing.
pub open spec fn stored<K, V>(entries: Map<K, V>, key: K, value: V) -> Map<K, V> {
    if entries.len() < MAX_ENTRIES_PER_CACHE {
        entries.insert(key, value)
    } else {
        entries
    }
}

/// Tells whether a cache holds no more entries than it may.
pub open spec fn is_bounded<K, V>(entries: Map<K, V>) -> bool {
    entries.dom().finite() && entries.len() <= MAX_ENTRIES_PER_CACHE
}

/// State that is expensive to discover but stable for the lifetime of the profiled
/// process. Remembering it saves the stack scanners from discovering it again on every
/// sample, which reduces the number of reads of the process's memory.
#[derive(Debug)]
pub struct StackScannerCache {
    // Address of the word inside the main ractor struct that holds the pointer to the
    // current execution context. The address is stable; the pointer stored there is not.
    ec_pointer_slot: Option<usize>,
    // Names of C functions, by (method entry, method definition, method id).
    cfunc_names: KeyedMap<(usize, usize, usize), String>,
    // Class paths, by (method entry, method definition).
    classpaths: KeyedMap<(usize, usize), (String, bool)>,
    // Frame details, by (iseq, method entry, method definition).
    frames: KeyedMap<(usize, usize, usize), CachedFrameInfo>,
}

impl View for StackScannerCache {
    type V = CacheModel;

    closed spec fn view(&self) -> CacheModel {
        CacheModel {
            ec_pointer_slot: self.ec_pointer_slot,
            cfunc_names: self.cfunc_names@.map_values(|name: String| name@),
            classpaths: self.classpaths@.map_values(
                |entry: (String, bool)| (entry.0@, entry.1),
            ),
            frames: self.frames@,
        }
    }
}

/// Stores `value` under `key`, unless the cache is full.
fn store<K: crate::keyed::Key, V>(entries: &mut KeyedMap<K, V>, key: K, value: V)
    requires
        old(entries).wf(),
        is_bounded(old(entries)@),
    ensures
        final(entries).wf(),
        is_bounded(final(entries)@),
        final(entries)@ == stored(old(entries)@, key, value),
{
    if entries.len() < MAX_ENTRIES_PER_CACHE {
        entries.insert(key, value);
    }
}

proof fn lemma_mapped_store<K, V, W>(entries: Map<K, V>, key: K, value: V, f: spec_fn(V) -> W)
    ensures
        stored(entries, key, value).map_values(f) == stored(entries.map_values(f), key, f(value)),
{
    assert(entries.map_values(f).dom() =~= entries.dom());
    assert(stored(entries, key, value).map_values(f) =~= stored(
        entries.map_values(f),
        key,
        f(value),
    ));
}

impl StackScannerCache {
    /// The maps are in order, and none holds more entries than it may.
    pub closed spec fn wf(self) -> bool {
        &&& self.cfunc_names.wf()
        &&& is_bounded(self.cfunc_names@)
        &&& self.classpaths.wf()
        &&& is_bounded(self.classpaths@)
        &&& self.frames.wf()
        &&& is_bounded(self.frames@)
    }

    /// A cache that holds nothing.
    pub fn new() -> (r: StackScannerCache)
        ensures
            r.wf(),
            r@ == (CacheModel {
                ec_pointer_slot: None,
                cfunc_names: Map::empty(),
                classpaths: Map::empty(),
                frames: Map::empty(),
            }),
    {
        let r = StackScannerCache {
            ec_pointer_slot: None,
            cfunc_names: KeyedMap::new(),
            classpaths: KeyedMap::new(),
            frames: KeyedMap::new(),
        };
        assert(r@ =~= CacheModel {
            ec_pointer_slot: None,
            cfunc_names: Map::empty(),
            classpaths: Map::empty(),
            frames: Map::empty(),
        });
        r
    }

    /// The address of the execution context pointer, if it is known.
    pub fn ec_pointer_slot(&self) -> (slot: Option<usize>)
        ensures
            slot == self@.ec_pointer_slot,
    {
        self.ec_pointer_slot
    }

    /// Remembers the address of the execution context pointer.
    pub fn set_ec_pointer_slot(&mut self, slot: usize)
        requires
            old(self).wf(),
        ensures
            final(self).wf(),
            final(self)@ == (CacheModel { ec_pointer_slot: Some(slot), ..old(self)@ }),
    {
        self.ec_pointer_slot = Some(slot);
    }

    /// Forgets the address of the execution context pointer.
    pub fn clear_ec_pointer_slot(&mut self)
        requires
            old(self).wf(),
        ensures
            final(self).wf(),
            final(self)@ == (CacheModel { ec_pointer_slot: None, ..old(self)@ }),
    {
        self.ec_pointer_slot = None;
    }

    /// The name of the C function under `key`.
    pub fn cfunc_name(&self, key: &(usize, usize, usize)) -> (name: Option<String>)
        requires
            self.wf(),
        ensures
            match name {
                Some(name) => self@.cfunc_names.contains_key(*key) && name@
                    == self@.cfunc_names[*key],
                None => !self@.cfunc_names.contains_key(*key),
            },
    {
        match self.cfunc_names.get(key) {
            Some(name) => Some(name.clone()),
            None => None,
        }
    }

    /// Remembers the name of a C function, unless the cache is full.
    pub fn store_cfunc_name(&mut self, key: (usize, usize, usize), name: &str)
        requires
            old(self).wf(),
        ensures
            final(self).wf(),
            final(self)@ == (CacheModel {
                cfunc_names: stored(old(self)@.cfunc_names, key, name@),
                ..old(self)@
            }),
    {
        let value: String = name.to_string();
        proof {
            lemma_mapped_store(self.cfunc_names@, key, value, |name: String| name@);
        }
        store(&mut self.cfunc_names, key, value);
    }

    /// The class path under `key`, and whether the class is a singleton.
    pub fn classpath(&self, key: &(usize, usize)) -> (classpath: Option<(String, bool)>)
        requires
            self.wf(),
        ensures
            match classpath {
                Some((path, singleton)) => self@.classpaths.contains_key(*key) && (path@, singleton)
                    == self@.classpaths[*key],
                None => !self@.classpaths.contains_key(*key),
            },
    {
        match self.classpaths.get(key) {
            Some(entry) => Some((entry.0.clone(), entry.1)),
            None => None,
        }
    }

    /// Remembers a class path, unless the cache is full.
    pub fn store_classpath(&mut self, key: (usize, usize), classpath: &str, singleton: bool)
        requires
            old(self).wf(),
        ensures
            final(self).wf(),
            final(self)@ == (CacheModel {
                classpaths: stored(old(self)@.classpaths, key, (classpath@, singleton)),
                ..old(self)@
            }),
    {
        let value: (String, bool) = (classpath.to_string(), singleton);
        proof {
            lemma_mapped_store(
                self.classpaths@,
                key,
                value,
                |entry: (String, bool)| (entry.0@, entry.1),
            );
        }
        store(&mut self.classpaths, key, value);
    }

    /// The frame details under `key`.
    pub fn frame(&self, key: &(usize, usize, usize)) -> (info: Option<CachedFrameInfo>)
        requires
            self.wf(),
        ensures
            match info {
                Some(info) => self@.frames.contains_key(*key) && info == self@.frames[*key],
                None => !self@.frames.contains_key(*key),
            },
    {
        match self.frames.get(key) {
            Some(info) => Some(info.clone()),
            None => None,
        }
    }

    /// Remembers frame details, unless the cache is full.
    pub fn store_frame(&mut self, key: (usize, usize, usize), info: CachedFrameInfo)
        requires
            old(self).wf(),
        ensures
            final(self).wf(),
            final(self)@ == (CacheModel {
                frames: stored(old(self)@.frames, key, info),
                ..old(self)@
            }),
    {
        store(&mut self.frames, key, info);
    }
}

impl Default for StackScannerCache {
    fn default() -> (r: StackScannerCache)
        ensures
            r.wf(),
            r@ == (CacheModel {
                ec_pointer_slot: None,
                cfunc_names: Map::empty(),
                classpaths: Map::empty(),
                frames: Map::empty(),
            }),
    {
        StackScannerCache::new()
    }
}

/// No cache ever holds more entries than it may.
pub proof fn caches_are_bounded(cache: StackScannerCache)
    requires
        cache.wf(),
    ensures
        is_bounded(cache@.cfunc_names),
        is_bounded(cache@.classpaths),
        is_bounded(cache@.frames),
        cache@.cfunc_names.len() <= 100_000,
        cache@.classpaths.len() <= 100_000,
        cache@.frames.len() <= 100_000,
{
    assert(cache@.cfunc_names.dom() =~= cache.cfunc_names@.dom());
    assert(cache@.classpaths.dom() =~= cache.classpaths@.dom());
}

/// What is stored in a cache that is not full is found under its key, and nothing
/// changes under any other key.
pub proof fn stored_value_is_found<K, V>(entries: Map<K, V>, key: K, value: V, other: K)
    requires
        entries.len() < 100_000,
    ensures
        stored(entries, key, value).contains_key(key),
        stored(entries, key, value)[key] == value,
        other != key ==> {
            &&& stored(entries, key, value).contains_key(other) == entries.contains_key(other)
            &&& entries.contains_key(other) ==> stored(entries, key, value)[other]
                == entries[other]
        },
{
}

/// Nothing is forgotten: storing leaves every key that is there in place.
pub proof fn keys_stay<K, V>(entries: Map<K, V>, key: K, value: V, other: K)
    requires
        entries.contains_key(other),
    ensures
        stored(entries, key, value).contains_key(other),
{
}

/// A cache that is full stays as it is, under the keys that it holds as well.
pub proof fn full_cache_stays<K, V>(entries: Map<K, V>, key: K, value: V)
    requires
        entries.len() >= 100_000,
    ensures
        stored(entries, key, value) == entries,
{
}

/// Storing keeps a cache within its bound.
pub proof fn storing_keeps_the_bound<K, V>(entries: Map<K, V>, key: K, value: V)
    requires
        is_bounded(entries),
    ensures
        is_bounded(stored(entries, key, value)),
{
}

} // verus!
