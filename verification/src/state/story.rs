//! # Story state
//!
//! Global storyline evolution: path (archetype choice) and arbitrary flags. The path is a
//! string id so new paths can be added in content without code changes.

use vstd::prelude::*;

use crate::state::world::opt_view;
use crate::text::{owned, NameSet};

verus! {

/// Global story state. `None` path = neutral (no archetype chosen yet).
pub struct StoryState {
    path: Option<String>,
    flags: NameSet,
}

impl StoryState {
    /// The chosen path, if any.
    pub closed spec fn path_view(&self) -> Option<Seq<char>> {
        opt_view(self.path)
    }

    /// The set flags.
    pub closed spec fn flags_view(&self) -> Set<Seq<char>> {
        self.flags@
    }

    pub fn new() -> (r: Self)
        ensures
            r.path_view() == None::<Seq<char>>,
            r.flags_view() == Set::<Seq<char>>::empty(),
    {
        StoryState { path: None, flags: NameSet::new() }
    }

    /// Current path id, or `None` if neutral.
    pub fn path(&self) -> (r: Option<&str>)
        ensures
            match r {
                Some(p) => self.path_view() == Some(p@),
                None => self.path_view() == None::<Seq<char>>,
            },
    {
        match &self.path {
            Some(p) => Some(p.as_str()),
            None => None,
        }
    }

    /// Commit to a path; any id is accepted.
    pub fn choose_path(&mut self, path_id: &str)
        ensures
            final(self).path_view() == Some(path_id@),
            final(self).flags_view() == old(self).flags_view(),
    {
        self.path = Some(owned(path_id));
    }

    /// Set a flag.
    pub fn set_flag(&mut self, flag: &str)
        ensures
            final(self).flags_view() == old(self).flags_view().insert(flag@),
            final(self).path_view() == old(self).path_view(),
    {
        self.flags.insert(flag);
    }

    pub fn has_flag(&self, flag: &str) -> (r: bool)
        ensures
            r == self.flags_view().contains(flag@),
    {
        self.flags.contains(flag)
    }

    /// True while no path has been chosen.
    pub fn is_neutral(&self) -> (r: bool)
        ensures
            r == (self.path_view() == None::<Seq<char>>),
    {
        self.path.is_none()
    }
}

impl Default for StoryState {
    fn default() -> (r: Self)
        ensures
            r.path_view() == None::<Seq<char>>,
            r.flags_view() == Set::<Seq<char>>::empty(),
    {
        StoryState::new()
    }
}

} // verus!
