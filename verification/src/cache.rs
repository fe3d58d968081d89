//! The shared result cache: one JSON value visible to every worker.
//!
//! The value starts as JSON null and is only ever replaced whole — there is
//! no merge. A reader takes a read lock and sees one whole stored value;
//! replacing takes the write lock and swaps the value in one step. The lock
//! is the verified reader/writer lock of vstd, so overlapping readers are
//! proved to observe the same whole value.
//!
//! The keyed subset read works on an object-shaped cache value: one string
//! key selects that key's value (null when absent); a list of string keys
//! selects an object of those keys; anything else is an error.

use vstd::prelude::*;
use vstd::rwlock::ReadHandle;
use vstd::rwlock::RwLock;
use vstd::rwlock::RwLockPredicate;

use crate::json::entries_view;
use crate::json::items_view;
use crate::json::lemma_entries_view;
use crate::json::lemma_items_view;
use crate::json::obj_get;
use crate::json::spec_obj_get;
use crate::json::spec_obj_has_key;
use crate::json::Json;
use crate::json::JsonSpec;

verus! {

/// Why a keyed subset read was refused.
#[derive(Debug, Clone, Copy, PartialEq, Eq)]
pub enum CacheError {
    /// The cache value is not an object, or the selector is neither a
    /// string nor a list.
    InvalidSelector,
    /// The selector list holds something that is not a string.
    InvalidKey,
}

/// The value stored under `key`, or JSON null when the key is absent.
pub open spec fn spec_lookup_or_null(
    o: Seq<(Seq<char>, JsonSpec)>,
    key: Seq<char>,
) -> JsonSpec {
    match spec_obj_get(o, key) {
        Some(v) => v,
        None => JsonSpec::Null,
    }
}

/// The entry list a list of selector keys reads out of an object: each
/// string key in order, each mapped to its value or null, repeats skipped;
/// a non-string key is an error.
pub open spec fn spec_subset_entries(
    o: Seq<(Seq<char>, JsonSpec)>,
    keys: Seq<JsonSpec>,
) -> Result<Seq<(Seq<char>, JsonSpec)>, CacheError>
    decreases keys.len(),
{
    if keys.len() == 0 {
        Ok(Seq::empty())
    } else {
        match spec_subset_entries(o, keys.drop_last()) {
            Err(e) => Err(e),
            Ok(acc) => match keys.last() {
                JsonSpec::Text(k) => if spec_obj_has_key(acc, k) {
                    Ok(acc)
                } else {
                    Ok(acc.push((k, spec_lookup_or_null(o, k))))
                },
                _ => Err(CacheError::InvalidKey),
            },
        }
    }
}

/// The only error a subset fold produces is `InvalidKey`.
proof fn lemma_subset_entries_err_shape(o: Seq<(Seq<char>, JsonSpec)>, keys: Seq<JsonSpec>)
    ensures
        spec_subset_entries(o, keys) is Err ==> spec_subset_entries(o, keys) == Err::<
            Seq<(Seq<char>, JsonSpec)>,
            CacheError,
        >(CacheError::InvalidKey),
    decreases keys.len(),
{
    if keys.len() > 0 {
        lemma_subset_entries_err_shape(o, keys.drop_last());
    }
}

/// A non-string key anywhere in the list makes the whole fold an error.
proof fn lemma_subset_entries_err(o: Seq<(Seq<char>, JsonSpec)>, keys: Seq<JsonSpec>, k: int)
    requires
        0 <= k < keys.len(),
        !(keys[k] is Text),
    ensures
        spec_subset_entries(o, keys) == Err::<Seq<(Seq<char>, JsonSpec)>, CacheError>(
            CacheError::InvalidKey,
        ),
    decreases keys.len(),
{
    lemma_subset_entries_err_shape(o, keys);
    if k < keys.len() - 1 {
        lemma_subset_entries_err(o, keys.drop_last(), k);
    }
}

/// What a keyed subset read returns for a given cache value and selector.
pub open spec fn spec_cache_subset(value: JsonSpec, selector: JsonSpec) -> Result<
    JsonSpec,
    CacheError,
> {
    match (selector, value) {
        (JsonSpec::Text(key), JsonSpec::Obj(o)) => Ok(spec_lookup_or_null(o, key)),
        (JsonSpec::Arr(keys), JsonSpec::Obj(o)) => match spec_subset_entries(o, keys) {
            Ok(es) => Ok(JsonSpec::Obj(es)),
            Err(e) => Err(e),
        },
        _ => Err(CacheError::InvalidSelector),
    }
}

/// Read a keyed subset out of a cache value.
#[verifier::loop_isolation(false)]
pub fn cache_subset(value: &Json, selector: &Json) -> (r: Result<Json, CacheError>)
    ensures
        match r {
            Ok(v) => spec_cache_subset(value@, selector@) == Ok::<JsonSpec, CacheError>(v@),
            Err(e) => spec_cache_subset(value@, selector@) == Err::<JsonSpec, CacheError>(e),
        },
{
    match (selector, value) {
        (Json::Text(key), Json::Obj(o)) => {
            proof {
                lemma_entries_view(o@);
            }
            match obj_get(o, key) {
                Some(v) => Ok(v.deep_clone()),
                None => Ok(Json::Null),
            }
        },
        (Json::Arr(keys), Json::Obj(o)) => {
            let ghost ospec = entries_view(o@);
            let ghost keyspecs = items_view(keys@);
            proof {
                lemma_entries_view(o@);
                lemma_items_view(keys@);
                assert(keyspecs.take(0) =~= Seq::<JsonSpec>::empty());
            }
            let mut picked: Vec<(String, Json)> = Vec::new();
            proof {
                lemma_entries_view(picked@);
                assert(entries_view(picked@) =~= Seq::<(Seq<char>, JsonSpec)>::empty());
            }
            let mut k: usize = 0;
            while k < keys.len()
                invariant
                    0 <= k <= keys@.len(),
                    spec_subset_entries(ospec, keyspecs.take(k as int)) == Ok::<
                        Seq<(Seq<char>, JsonSpec)>,
                        CacheError,
                    >(entries_view(picked@)),
                decreases keys@.len() - k,
            {
                let ghost prefix = keyspecs.take(k as int);
                proof {
                    assert(keyspecs.take(k as int + 1).drop_last() =~= prefix);
                    assert(keyspecs.take(k as int + 1).last() == keyspecs[k as int]);
                }
                match &keys[k] {
                    Json::Text(kk) => {
                        let ghost before = entries_view(picked@);
                        if obj_get(&picked, kk).is_none() {
                            let v = match obj_get(o, kk) {
                                Some(found) => found.deep_clone(),
                                None => Json::Null,
                            };
                            let ghost old_picked = picked@;
                            picked.push((kk.clone(), v));
                            proof {
                                lemma_entries_view(picked@);
                                lemma_entries_view(old_picked);
                                assert(entries_view(picked@) =~= before.push(
                                    (kk@, spec_lookup_or_null(ospec, kk@)),
                                ));
                            }
                        }
                    },
                    _ => {
                        proof {
                            lemma_subset_entries_err(ospec, keyspecs, k as int);
                        }
                        return Err(CacheError::InvalidKey);
                    },
                }
                k += 1;
            }
            proof {
                assert(keyspecs.take(keys@.len() as int) =~= keyspecs);
            }
            Ok(Json::Obj(picked))
        },
        _ => Err(CacheError::InvalidSelector),
    }
}

/// The cache value after a replacement: the new value, whole. There is no
/// merge of any kind.
pub open spec fn spec_cache_after_replace(new_value: JsonSpec) -> JsonSpec {
    new_value
}

/// What a read returns of a stored cache value: the stored value, whole.
pub open spec fn spec_cache_read(stored: JsonSpec) -> JsonSpec {
    stored
}

/// Cache round trip: once `replace(v)` has stored its value and no other
/// replacement intervenes, a read returns exactly `v`.
pub proof fn lemma_cache_round_trip(v: JsonSpec)
    ensures
        spec_cache_read(spec_cache_after_replace(v)) == v,
{
}

/// The lock invariant of the shared cache: any whole JSON value may be
/// stored.
pub struct CachePred {}

impl RwLockPredicate<Json> for CachePred {
    open spec fn inv(self, v: Json) -> bool {
        true
    }
}

/// The process-wide shared result cache: a single JSON value behind a
/// verified multiple-reader/single-writer lock.
pub struct DataCache {
    lock: RwLock<Json, CachePred>,
}

impl DataCache {
    /// A fresh cache, holding JSON null.
    pub fn new() -> DataCache {
        DataCache { lock: RwLock::new(Json::Null, Ghost(CachePred {})) }
    }

    /// The whole current value, read under a read lock.
    pub fn read(&self) -> Json {
        let handle = self.lock.acquire_read();
        let value = handle.borrow().deep_clone();
        handle.release_read();
        value
    }

    /// Replace the whole stored value in one step, under the write lock.
    /// There is no merge: the old value is discarded entirely.
    pub fn replace(&self, value: Json) {
        let (_, handle) = self.lock.acquire_write();
        handle.release_write(value);
    }

    /// A keyed subset of the current value, computed under one read lock,
    /// so the whole subset comes from one stored value.
    pub fn read_subset(&self, selector: &Json) -> (r: Result<Json, CacheError>)
        ensures
            exists|stored: JsonSpec|
                #[trigger] spec_cache_subset(stored, selector@) == (match r {
                    Ok(v) => Ok::<JsonSpec, CacheError>(v@),
                    Err(e) => Err::<JsonSpec, CacheError>(e),
                }),
    {
        let handle = self.lock.acquire_read();
        let r = cache_subset(handle.borrow(), selector);
        proof {
            let stored = handle.view()@;
            assert(spec_cache_subset(stored, selector@) == (match r {
                Ok(v) => Ok::<JsonSpec, CacheError>(v@),
                Err(e) => Err::<JsonSpec, CacheError>(e),
            }));
        }
        handle.release_read();
        r
    }

    /// Two overlapping readers observe the same whole value: a read that
    /// runs beside another read (or between two replacements) never sees a
    /// mix of old and new.
    pub fn read_pair(&self) -> (pair: (Json, Json))
        ensures
            pair.0@ == pair.1@,
    {
        let h1 = self.lock.acquire_read();
        let h2 = self.lock.acquire_read();
        proof {
            ReadHandle::lemma_readers_match(&h1, &h2);
        }
        let v1 = h1.borrow().deep_clone();
        let v2 = h2.borrow().deep_clone();
        h1.release_read();
        h2.release_read();
        (v1, v2)
    }
}

/// Store a value as the whole cache content.
pub fn set_data_cache(cache: &DataCache, value: Json) {
    cache.replace(value);
}

/// A held read lock on the cache: the in-engine transform runs against
/// the borrowed value inside this scope, so no replacement can slip in
/// between reading the value and transforming it.
pub struct CacheReadGuard<'a> {
    handle: ReadHandle<'a, Json, CachePred>,
}

impl DataCache {
    /// Take a read lock and hold it until `finish`.
    pub fn begin_read(&self) -> CacheReadGuard<'_> {
        CacheReadGuard { handle: self.lock.acquire_read() }
    }
}

impl<'a> CacheReadGuard<'a> {
    /// The one whole value this guard observes.
    pub closed spec fn snapshot(&self) -> Json {
        self.handle.view()
    }

    /// The locked value.
    pub fn value(&self) -> (v: &Json)
        ensures
            v == self.snapshot(),
    {
        self.handle.borrow()
    }

    /// Release the read lock.
    pub fn finish(self) {
        self.handle.release_read();
    }
}

} // verus!
