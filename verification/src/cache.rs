//! # Load-on-demand caches
//!
//! A small map from string keys to values, filled on first request. The caches of sprite
//! sheets and scene definitions are built on it; what a miss loads (a file from disk) is
//! handed in by the caller as a closure.

use vstd::prelude::*;

use crate::text::{keyed_find, keyed_index_from, lemma_keyed_index_range, owned};

verus! {

/// What pushing `e` does to the first index of key `id` at or after `i`.
proof fn lemma_keyed_index_push<T>(es: Seq<(String, T)>, e: (String, T), id: Seq<char>, i: int)
    requires
        0 <= i <= es.len(),
    ensures
        keyed_index_from(es.push(e), id, i) == match keyed_index_from(es, id, i) {
            Some(j) => Some(j),
            None => if e.0@ == id {
                Some(es.len() as int)
            } else {
                None
            },
        },
    decreases es.len() - i,
{
    if i < es.len() {
        assert(es.push(e)[i] == es[i]);
        if es[i].0@ != id {
            lemma_keyed_index_push(es, e, id, i + 1);
        }
    } else {
        assert(es.push(e)[i] == e);
        assert(keyed_index_from(es.push(e), id, i + 1) is None);
    }
}

/// Values by string key, each key at most once.
pub struct KeyedCache<T> {
    entries: Vec<(String, T)>,
}

impl<T> KeyedCache<T> {
    /// The value cached under `id`, if any.
    pub closed spec fn lookup(&self, id: Seq<char>) -> Option<T> {
        match keyed_index_from(self.entries@, id, 0) {
            Some(i) => Some(self.entries@[i].1),
            None => None,
        }
    }

    /// An empty cache.
    pub fn new() -> (r: Self)
        ensures
            forall|id: Seq<char>| r.lookup(id) is None,
    {
        KeyedCache { entries: Vec::new() }
    }

    /// Whether a value is cached under `id`.
    pub fn contains(&self, id: &str) -> (r: bool)
        ensures
            r == self.lookup(id@) is Some,
    {
        keyed_find(&self.entries, id).is_some()
    }

    /// The value cached under `id`, without loading.
    pub fn get(&self, id: &str) -> (r: Option<&T>)
        ensures
            match r {
                Some(v) => self.lookup(id@) == Some(*v),
                None => self.lookup(id@) is None,
            },
    {
        match keyed_find(&self.entries, id) {
            Some(i) => Some(&self.entries[i].1),
            None => None,
        }
    }

    /// Cache `v` under `id`, which holds nothing yet.
    pub fn insert_new(&mut self, id: &str, v: T)
        requires
            old(self).lookup(id@) is None,
        ensures
            final(self).lookup(id@) == Some(v),
            forall|k: Seq<char>| k != id@ ==> final(self).lookup(k) == old(self).lookup(k),
    {
        let ghost es = self.entries@;
        let e = (owned(id), v);
        self.entries.push(e);
        proof {
            lemma_keyed_index_push(es, e, id@, 0);
            lemma_keyed_index_range(es, id@, 0);
            assert forall|k: Seq<char>| k != id@ implies final(self).lookup(k) == old(self).lookup(
                k,
            ) by {
                lemma_keyed_index_push(es, e, k, 0);
                lemma_keyed_index_range(es, k, 0);
            }
        }
    }

    /// The value cached under `id`; on a miss, `load(id)` is called once and a loaded value is
    /// cached. A miss that `load` cannot fill leaves the cache unchanged.
    pub fn get_or_load<F: FnOnce(&str) -> Option<T>>(&mut self, id: &str, load: F) -> (r: Option<&T>)
        requires
            call_requires(load, (id,)),
        ensures
            match old(self).lookup(id@) {
                Some(v) => r == Some(&v) && forall|k: Seq<char>|
                    final(self).lookup(k) == old(self).lookup(k),
                None => exists|loaded: Option<T>|
                    {
                        &&& call_ensures(load, (id,), loaded)
                        &&& r == match loaded {
                            Some(v) => Some(&v),
                            None => None,
                        }
                        &&& final(self).lookup(id@) == loaded
                        &&& forall|k: Seq<char>| k != id@ ==> final(self).lookup(k) == old(self).lookup(k)
                    },
            },
    {
        if self.contains(id) {
            return self.get(id);
        }
        match load(id) {
            Some(v) => {
                self.insert_new(id, v);
                self.get(id)
            },
            None => None,
        }
    }

    /// Like [`Self::get_or_load`], with a loader that reports why it failed: the error is
    /// handed back and nothing is cached.
    pub fn get_or_try_load<E, F: FnOnce(&str) -> Result<T, E>>(&mut self, id: &str, load: F) -> (r:
        Result<&T, E>)
        requires
            call_requires(load, (id,)),
        ensures
            match old(self).lookup(id@) {
                Some(v) => r == Ok::<&T, E>(&v) && forall|k: Seq<char>|
                    final(self).lookup(k) == old(self).lookup(k),
                None => exists|loaded: Result<T, E>|
                    {
                        &&& call_ensures(load, (id,), loaded)
                        &&& match loaded {
                            Ok(v) => r == Ok::<&T, E>(&v) && final(self).lookup(id@) == Some(v),
                            Err(e) => r == Err::<&T, E>(e) && final(self).lookup(id@) is None,
                        }
                        &&& forall|k: Seq<char>| k != id@ ==> final(self).lookup(k) == old(self).lookup(k)
                    },
            },
    {
        if self.contains(id) {
            return match self.get(id) {
                Some(v) => Ok(v),
                None => {
                    proof {
                        assert(false);
                    }
                    Ok(&self.entries[0].1)
                },
            };
        }
        match load(id) {
            Ok(v) => {
                self.insert_new(id, v);
                match self.get(id) {
                    Some(v) => Ok(v),
                    None => {
                        proof {
                            assert(false);
                        }
                        Ok(&self.entries[0].1)
                    },
                }
            },
            Err(e) => Err(e),
        }
    }
}

} // verus!
