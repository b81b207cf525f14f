//! In-memory registry of loaded [`SkillDef`]s, keyed by skill id.

use vstd::prelude::*;

use crate::skills::defs::SkillDef;
use crate::text::{keyed_find, keyed_index_from, keys_of, lemma_keyed_index_range, names, owned};

verus! {

/// The definition that the last entry at or after `i` with key `id` gives.
pub open spec fn last_def_from(es: Seq<(String, SkillDef)>, id: Seq<char>, i: int) -> Option<SkillDef>
    decreases es.len() - i,
{
    if i < 0 || i >= es.len() {
        None
    } else {
        match last_def_from(es, id, i + 1) {
            Some(d) => Some(d),
            None => if es[i].0@ == id {
                Some(es[i].1)
            } else {
                None
            },
        }
    }
}

/// Loaded skill definitions by id; each id occurs once.
pub struct SkillRegistry {
    defs: Vec<(String, SkillDef)>,
}

impl SkillRegistry {
    #[verifier::type_invariant]
    closed spec fn ids_unique(&self) -> bool {
        keys_of(self.defs@).no_duplicates()
    }

    /// The definition registered under `id`.
    pub closed spec fn lookup(&self, id: Seq<char>) -> Option<SkillDef> {
        match keyed_index_from(self.defs@, id, 0) {
            Some(i) => Some(self.defs@[i].1),
            None => None,
        }
    }

    /// The registered ids.
    pub closed spec fn id_set(&self) -> Set<Seq<char>> {
        keys_of(self.defs@).to_set()
    }

    /// A registry of `defs`, where a later definition of an id replaces an earlier one;
    /// `None` when `defs` is empty.
    pub fn from_defs(defs: Vec<(String, SkillDef)>) -> (r: Option<Self>)
        ensures
            r is None <==> defs@.len() == 0,
            r matches Some(reg) ==> forall|id: Seq<char>|
                #![trigger reg.lookup(id)]
                reg.lookup(id) == last_def_from(defs@, id, 0) && (reg.id_set().contains(id)
                    <==> last_def_from(defs@, id, 0) is Some),
    {
        if defs.len() == 0 {
            return None;
        }
        let ghost orig = defs@;
        let mut defs = defs;
        let mut out: Vec<(String, SkillDef)> = Vec::new();
        while defs.len() > 0
            invariant
                defs@ == orig.take(defs@.len() as int),
                defs@.len() <= orig.len(),
                keys_of(out@).no_duplicates(),
                forall|id: Seq<char>|
                    #![trigger keyed_index_from(out@, id, 0)]
                    (match keyed_index_from(out@, id, 0) {
                        Some(i) => Some(out@[i].1),
                        None => None,
                    }) == last_def_from(orig, id, defs@.len() as int),
            decreases defs@.len(),
        {
            let ghost m = defs@.len() as int;
            let e = defs.pop().unwrap();
            assert(e == orig[m - 1]);
            let present = keyed_find(&out, e.0.as_str());
            let ghost before = out@;
            if present.is_none() {
                let ghost key = e.0@;
                out.push(e);
                proof {
                    assert(keys_of(out@) =~= keys_of(before).push(key));
                    assert forall|i: int, j: int|
                        0 <= i < keys_of(out@).len() && 0 <= j < keys_of(out@).len() && i != j
                        implies keys_of(out@)[i] != keys_of(out@)[j] by {
                        lemma_keyed_index_range(before, key, 0);
                        if i == before.len() {
                            assert(before[j].0@ != key);
                        } else if j == before.len() {
                            assert(before[i].0@ != key);
                        }
                    }
                    assert forall|id: Seq<char>| true implies (match #[trigger] keyed_index_from(
                        out@,
                        id,
                        0,
                    ) {
                        Some(i) => Some(out@[i].1),
                        None => None,
                    }) == last_def_from(orig, id, m - 1) by {
                        lemma_keyed_index_range(before, id, 0);
                        lemma_keyed_index_range(out@, id, 0);
                        if id == key {
                            assert(out@[before.len() as int].0@ == key);
                        } else {
                            match keyed_index_from(before, id, 0) {
                                Some(j) => {
                                    assert(out@[j] == before[j]);
                                },
                                None => {
                                    assert(out@[before.len() as int].0@ != id);
                                },
                            }
                        }
                    }
                }
            } else {
                proof {
                    assert forall|id: Seq<char>| true implies (match #[trigger] keyed_index_from(
                        out@,
                        id,
                        0,
                    ) {
                        Some(i) => Some(out@[i].1),
                        None => None,
                    }) == last_def_from(orig, id, m - 1) by {
                        lemma_keyed_index_range(out@, id, 0);
                    }
                }
            }
        }
        let reg = SkillRegistry { defs: out };
        proof {
            assert forall|id: Seq<char>| #![trigger reg.lookup(id)]
                reg.id_set().contains(id) <==> last_def_from(orig, id, 0) is Some by {
                lemma_keyed_index_range(reg.defs@, id, 0);
                if reg.id_set().contains(id) {
                    let k = choose|k: int| 0 <= k < keys_of(reg.defs@).len() && keys_of(reg.defs@)[k] == id;
                    assert(reg.defs@[k].0@ == id);
                }
                if let Some(i) = keyed_index_from(reg.defs@, id, 0) {
                    assert(keys_of(reg.defs@)[i] == id);
                }
            }
        }
        Some(reg)
    }

    /// Number of registered skills.
    pub fn len(&self) -> (r: usize)
        ensures
            r == self.id_set().len(),
    {
        proof {
            use_type_invariant(self);
            keys_of(self.defs@).unique_seq_to_set();
        }
        self.defs.len()
    }

    /// Whether no skill is registered.
    pub fn is_empty(&self) -> (r: bool)
        ensures
            r == (self.id_set().len() == 0),
    {
        self.len() == 0
    }

    /// Whether a skill with this id is registered.
    pub fn contains(&self, id: &str) -> (r: bool)
        ensures
            r == self.lookup(id@) is Some,
    {
        keyed_find(&self.defs, id).is_some()
    }

    /// The definition registered under `id`.
    pub fn get(&self, id: &str) -> (r: Option<&SkillDef>)
        ensures
            match r {
                Some(d) => self.lookup(id@) == Some(*d),
                None => self.lookup(id@) is None,
            },
    {
        match keyed_find(&self.defs, id) {
            Some(i) => Some(&self.defs[i].1),
            None => None,
        }
    }

    /// The registered ids, each once, in no particular order.
    pub fn ids(&self) -> (r: Vec<String>)
        ensures
            names(r@).no_duplicates(),
            names(r@).to_set() == self.id_set(),
    {
        proof {
            use_type_invariant(self);
        }
        let mut r: Vec<String> = Vec::new();
        let mut i: usize = 0;
        while i < self.defs.len()
            invariant
                i <= self.defs.len(),
                names(r@) == keys_of(self.defs@).take(i as int),
            decreases self.defs.len() - i,
        {
            let ghost r0 = r@;
            let o = owned(self.defs[i].0.as_str());
            r.push(o);
            proof {
                crate::text::lemma_names_push(r0, o);
                assert(names(r@) =~= keys_of(self.defs@).take(i + 1));
            }
            i = i + 1;
        }
        assert(keys_of(self.defs@).take(i as int) =~= keys_of(self.defs@));
        proof {
            keys_of(self.defs@).unique_seq_to_set();
        }
        r
    }

    /// `(id, definition)` pairs, each id once, in no particular order.
    pub fn iter(&self) -> (r: Vec<(&str, &SkillDef)>)
        ensures
            r@.len() == self.id_set().len(),
            forall|i: int|
                0 <= i < r@.len() ==> self.lookup(r@[i].0@) == Some(*r@[i].1) && self.id_set().contains(
                    r@[i].0@,
                ),
            forall|id: Seq<char>| self.id_set().contains(id) ==> exists|i: int| 0 <= i < r@.len() && r@[i].0@ == id,
    {
        proof {
            use_type_invariant(self);
        }
        proof {
            keys_of(self.defs@).unique_seq_to_set();
        }
        let mut r: Vec<(&str, &SkillDef)> = Vec::new();
        let mut i: usize = 0;
        while i < self.defs.len()
            invariant
                i <= self.defs.len(),
                r@.len() == i,
                keys_of(self.defs@).no_duplicates(),
                forall|k: int| 0 <= k < i ==> r@[k].0@ == self.defs@[k].0@ && *r@[k].1 == self.defs@[k].1,
            decreases self.defs.len() - i,
        {
            r.push((self.defs[i].0.as_str(), &self.defs[i].1));
            i = i + 1;
        }
        proof {
            assert forall|k: int| 0 <= k < r@.len() implies self.lookup(r@[k].0@) == Some(*r@[k].1)
                && self.id_set().contains(r@[k].0@) by {
                lemma_keyed_index_range(self.defs@, self.defs@[k].0@, 0);
                let j = keyed_index_from(self.defs@, self.defs@[k].0@, 0).unwrap();
                assert(keys_of(self.defs@)[j] == keys_of(self.defs@)[k]);
                assert(keys_of(self.defs@)[k] == self.defs@[k].0@);
            }
            assert forall|id: Seq<char>| self.id_set().contains(id) implies exists|k: int|
                0 <= k < r@.len() && r@[k].0@ == id by {
                let k = choose|k: int| 0 <= k < keys_of(self.defs@).len() && keys_of(self.defs@)[k] == id;
                assert(r@[k].0@ == id);
            }
        }
        r
    }
}

} // verus!
