//! # World state (story / quest tracking)
//!
//! Persistent player choices that outlive individual maps and dialogues: the chosen archetype
//! path, progress flags, and quests with the lifecycle **active → completed**. Drives branch
//! conditions in conversations and door gates.

use vstd::prelude::*;

use crate::text::{names, owned, NameSet};

verus! {

/// Plain copy of a [`WorldState`] for save files.
pub struct WorldStateSnapshot {
    pub path: Option<String>,
    pub flags: Vec<String>,
    pub active_quests: Vec<String>,
    pub completed_quests: Vec<String>,
}

/// Global story / quest state.
///
/// Flags are simple switches; quests are tracked objectives that start active and end
/// completed; the path is the chosen archetype (`None` = neutral).
pub struct WorldState {
    path: Option<String>,
    flags: NameSet,
    active_quests: NameSet,
    completed_quests: NameSet,
}

/// What a [`WorldState`] holds: the path, and three sets of names.
pub struct WorldStateView {
    pub path: Option<Seq<char>>,
    pub flags: Set<Seq<char>>,
    pub active_quests: Set<Seq<char>>,
    pub completed_quests: Set<Seq<char>>,
}

/// The characters of an optional string.
pub open spec fn opt_view(o: Option<String>) -> Option<Seq<char>> {
    match o {
        Some(s) => Some(s@),
        None => None,
    }
}

impl View for WorldState {
    type V = WorldStateView;

    closed spec fn view(&self) -> WorldStateView {
        WorldStateView {
            path: opt_view(self.path),
            flags: self.flags@,
            active_quests: self.active_quests@,
            completed_quests: self.completed_quests@,
        }
    }
}

/// Story state after starting quest `id`: no change if it was already completed.
pub open spec fn start_quest_view(w: WorldStateView, id: Seq<char>) -> WorldStateView {
    if w.completed_quests.contains(id) {
        w
    } else {
        WorldStateView { active_quests: w.active_quests.insert(id), ..w }
    }
}

/// Story state after completing quest `id`: no longer active, now completed.
pub open spec fn complete_quest_view(w: WorldStateView, id: Seq<char>) -> WorldStateView {
    WorldStateView {
        active_quests: w.active_quests.remove(id),
        completed_quests: w.completed_quests.insert(id),
        ..w
    }
}

/// Story state after setting flag `f`.
pub open spec fn set_flag_view(w: WorldStateView, f: Seq<char>) -> WorldStateView {
    WorldStateView { flags: w.flags.insert(f), ..w }
}

/// Story state after choosing path `p`.
pub open spec fn choose_path_view(w: WorldStateView, p: Seq<char>) -> WorldStateView {
    WorldStateView { path: Some(p), ..w }
}

/// `snap` lists each member of `w`'s three sets exactly once and carries its path.
pub open spec fn snapshot_of(snap: WorldStateSnapshot, w: WorldStateView) -> bool {
    &&& opt_view(snap.path) == w.path
    &&& names(snap.flags@).no_duplicates()
    &&& names(snap.flags@).to_set() == w.flags
    &&& names(snap.active_quests@).no_duplicates()
    &&& names(snap.active_quests@).to_set() == w.active_quests
    &&& names(snap.completed_quests@).no_duplicates()
    &&& names(snap.completed_quests@).to_set() == w.completed_quests
}

/// The story state that restoring `snap` gives.
pub open spec fn restored_view(snap: WorldStateSnapshot) -> WorldStateView {
    WorldStateView {
        path: opt_view(snap.path),
        flags: names(snap.flags@).to_set(),
        active_quests: names(snap.active_quests@).to_set(),
        completed_quests: names(snap.completed_quests@).to_set(),
    }
}

impl WorldState {
    pub fn new() -> (r: Self)
        ensures
            r@.path == None::<Seq<char>>,
            r@.flags == Set::<Seq<char>>::empty(),
            r@.active_quests == Set::<Seq<char>>::empty(),
            r@.completed_quests == Set::<Seq<char>>::empty(),
    {
        WorldState {
            path: None,
            flags: NameSet::new(),
            active_quests: NameSet::new(),
            completed_quests: NameSet::new(),
        }
    }

    /// Plain copy for a save file.
    pub fn to_snapshot(&self) -> (r: WorldStateSnapshot)
        ensures
            snapshot_of(r, self@),
    {
        let path = match &self.path {
            Some(p) => Some(owned(p.as_str())),
            None => None,
        };
        WorldStateSnapshot {
            path,
            flags: self.flags.to_vec(),
            active_quests: self.active_quests.to_vec(),
            completed_quests: self.completed_quests.to_vec(),
        }
    }

    /// Replace all story state from a save (used after load).
    pub fn restore_from_snapshot(&mut self, s: WorldStateSnapshot)
        ensures
            final(self)@ == restored_view(s),
    {
        let flags = NameSet::from_vec(&s.flags);
        let active = NameSet::from_vec(&s.active_quests);
        let completed = NameSet::from_vec(&s.completed_quests);
        self.path = s.path;
        self.flags = flags;
        self.active_quests = active;
        self.completed_quests = completed;
    }

    /// Current path id, or `None` if neutral.
    pub fn path(&self) -> (r: Option<&str>)
        ensures
            match r {
                Some(p) => self@.path == Some(p@),
                None => self@.path == None::<Seq<char>>,
            },
    {
        match &self.path {
            Some(p) => Some(p.as_str()),
            None => None,
        }
    }

    /// Commit to a path; any id is accepted.
    pub fn choose_path(&mut self, path_id: &str)
        ensures
            final(self)@ == choose_path_view(old(self)@, path_id@),
    {
        self.path = Some(owned(path_id));
    }

    /// True while no path has been chosen.
    pub fn is_neutral(&self) -> (r: bool)
        ensures
            r == (self@.path == None::<Seq<char>>),
    {
        self.path.is_none()
    }

    /// Set a flag.
    pub fn set_flag(&mut self, flag: &str)
        ensures
            final(self)@ == set_flag_view(old(self)@, flag@),
    {
        self.flags.insert(flag);
    }

    pub fn has_flag(&self, flag: &str) -> (r: bool)
        ensures
            r == self@.flags.contains(flag@),
    {
        self.flags.contains(flag)
    }

    /// Begin tracking a quest. No effect if the quest is already active or completed.
    pub fn start_quest(&mut self, id: &str)
        ensures
            final(self)@ == start_quest_view(old(self)@, id@),
    {
        if !self.completed_quests.contains(id) {
            self.active_quests.insert(id);
        }
    }

    /// Mark a quest as completed (removes it from the active ones).
    pub fn complete_quest(&mut self, id: &str)
        ensures
            final(self)@ == complete_quest_view(old(self)@, id@),
    {
        self.active_quests.remove(id);
        self.completed_quests.insert(id);
    }

    /// True if the quest is currently in progress.
    pub fn quest_active(&self, id: &str) -> (r: bool)
        ensures
            r == self@.active_quests.contains(id@),
    {
        self.active_quests.contains(id)
    }

    /// True if the quest has been completed.
    pub fn quest_complete(&self, id: &str) -> (r: bool)
        ensures
            r == self@.completed_quests.contains(id@),
    {
        self.completed_quests.contains(id)
    }
}

impl Default for WorldState {
    fn default() -> (r: Self)
        ensures
            r@.path == None::<Seq<char>>,
            r@.flags == Set::<Seq<char>>::empty(),
            r@.active_quests == Set::<Seq<char>>::empty(),
            r@.completed_quests == Set::<Seq<char>>::empty(),
    {
        WorldState::new()
    }
}

/// Restoring a snapshot taken of a story state gives that story state back.
pub proof fn law_snapshot_round_trip(w: WorldStateView, snap: WorldStateSnapshot)
    requires
        snapshot_of(snap, w),
    ensures
        restored_view(snap) == w,
{
}

/// A completed quest is never active again: starting it changes nothing, and completing any
/// quest keeps the active and completed sets apart when they were apart before.
pub proof fn law_quest_lifecycle(w: WorldStateView, id: Seq<char>, other: Seq<char>)
    requires
        w.active_quests.disjoint(w.completed_quests),
    ensures
        start_quest_view(w, id).active_quests.disjoint(start_quest_view(w, id).completed_quests),
        complete_quest_view(w, id).active_quests.disjoint(
            complete_quest_view(w, id).completed_quests,
        ),
        !complete_quest_view(w, id).active_quests.contains(id),
        complete_quest_view(w, id).completed_quests.contains(id),
        start_quest_view(complete_quest_view(w, id), id) == complete_quest_view(w, id),
{
    let c = complete_quest_view(w, id);
    assert(start_quest_view(c, id) == c);
}

/// Setting a flag makes it read back as set, and leaves every other flag as it was.
pub proof fn law_flag_read_after_write(w: WorldStateView, f: Seq<char>, g: Seq<char>)
    ensures
        set_flag_view(w, f).flags.contains(f),
        g != f ==> (set_flag_view(w, f).flags.contains(g) == w.flags.contains(g)),
{
}

} // verus!
