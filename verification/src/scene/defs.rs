//! Scene definitions and their load-on-demand cache.

use vstd::prelude::*;

use crate::cache::KeyedCache;

verus! {

/// One step of a scripted scene.
#[derive(Clone, Debug)]
pub enum SceneStep {
    /// A speaker says `lines`; `portrait` is the character id of the portrait (none shown
    /// when `None`).
    Dialogue { speaker: String, portrait: Option<String>, lines: Vec<String> },
    GiveSkill { skill_id: String },
    SetFlag { flag: String },
}

/// A complete scene: an ordered list of steps.
#[derive(Clone, Debug)]
pub struct SceneDef {
    pub id: String,
    pub steps: Vec<SceneStep>,
}

/// Scene definitions by id, each loaded on first use.
pub struct SceneCache {
    cache: KeyedCache<SceneDef>,
}

impl SceneCache {
    /// The scene cached under `id`, if any.
    pub closed spec fn lookup(&self, id: Seq<char>) -> Option<SceneDef> {
        self.cache.lookup(id)
    }

    /// An empty cache.
    pub fn new() -> (r: Self)
        ensures
            forall|id: Seq<char>| r.lookup(id) is None,
    {
        SceneCache { cache: KeyedCache::new() }
    }

    /// The scene `id`, loading it with `load(id)` on first access. A failed load is reported
    /// and caches nothing.
    pub fn get_or_load<E, F: FnOnce(&str) -> Result<SceneDef, E>>(&mut self, id: &str, load: F) -> (r:
        Result<&SceneDef, E>)
        requires
            call_requires(load, (id,)),
        ensures
            match old(self).lookup(id@) {
                Some(v) => r == Ok::<&SceneDef, E>(&v) && forall|k: Seq<char>|
                    final(self).lookup(k) == old(self).lookup(k),
                None => exists|loaded: Result<SceneDef, E>|
                    {
                        &&& call_ensures(load, (id,), loaded)
                        &&& match loaded {
                            Ok(v) => r == Ok::<&SceneDef, E>(&v) && final(self).lookup(id@) == Some(v),
                            Err(e) => r == Err::<&SceneDef, E>(e) && final(self).lookup(id@) is None,
                        }
                        &&& forall|k: Seq<char>| k != id@ ==> final(self).lookup(k) == old(self).lookup(k)
                    },
            },
    {
        self.cache.get_or_try_load(id, load)
    }
}

impl Default for SceneCache {
    fn default() -> (r: Self)
        ensures
            forall|id: Seq<char>| r.lookup(id) is None,
    {
        SceneCache::new()
    }
}

} // verus!
