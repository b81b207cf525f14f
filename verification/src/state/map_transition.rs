//! # Map door decisions
//!
//! Whether the player goes through a door this frame. The binary finds the first door whose
//! rectangle holds the player (world coordinates, floating point) and runs the cooldown after
//! a transition; the rule here takes it from there:
//!
//! - **Walk-through** (`require_confirm: false`): triggers on the first frame the player is in
//!   the door (edge detection against the door overlapped last frame).
//! - **Confirm** (`require_confirm: true`): triggers on Space / Enter while inside.
//! - **Story gate** (`require_state`): when the story state does not satisfy it, the door is
//!   blocked and its `deny_message` (trimmed) is shown instead.

use vstd::prelude::*;
use vstd::string::StrSliceExecFns;

use crate::dialogue::{gate_text_holds, world_state_satisfies};
use crate::state::input::{InputState, InputView};
use crate::state::world::{opt_view, WorldState};
use crate::text::{owned, str_eq, trim, trim_view};

verus! {

/// The rule part of a door from `doors.json` (its rectangle and spawn point stay with the
/// binary).
#[derive(Clone, Debug)]
pub struct DoorRule {
    pub to_map: String,
    pub require_confirm: bool,
    pub require_state: Option<String>,
    pub deny_message: Option<String>,
    pub prop: Option<String>,
}

/// What a door poll decides this frame.
#[derive(Clone, Debug)]
pub enum DoorDecision {
    Nothing,
    /// Go through door `index`.
    Transition(usize),
    /// The story gate holds the player back; the message is empty when the author gave none.
    Blocked { message: String },
}

/// The door prop id, with a blank id and `none` read as no prop.
pub open spec fn prop_id_view(prop: Option<Seq<char>>) -> Option<Seq<char>> {
    match prop {
        None => None,
        Some(p) => {
            let t = trim_view(p);
            if t.len() == 0 || t == "none"@ {
                None
            } else {
                Some(t)
            }
        },
    }
}

impl DoorRule {
    /// The door prop id, trimmed; `None` when missing, blank or `none` (transition only, no
    /// door sprite).
    pub fn prop_id(&self) -> (r: Option<&str>)
        ensures
            match r {
                Some(s) => prop_id_view(opt_view(self.prop)) == Some(s@),
                None => prop_id_view(opt_view(self.prop)) is None,
            },
    {
        match &self.prop {
            None => None,
            Some(p) => {
                let t = trim(p.as_str());
                if t.unicode_len() == 0 || str_eq(t, "none") {
                    None
                } else {
                    Some(t)
                }
            },
        }
    }
}

/// Whether door `d`'s story gate (trimmed; blank means none) is closed in story state `w`.
pub open spec fn gate_closed(d: DoorRule, w: crate::state::world::WorldStateView) -> bool {
    match d.require_state {
        None => false,
        Some(req) => {
            let t = trim_view(req@);
            t.len() != 0 && !gate_text_holds(Some(t), w)
        },
    }
}

/// The door that would trigger: the overlapped door, if it needs no confirm and was not
/// overlapped last frame, or if it needs a confirm and one was pressed.
pub open spec fn candidate(doors: Seq<DoorRule>, now: Option<usize>, prev: Option<usize>, confirm: bool) -> Option<usize> {
    match now {
        Some(i) => if doors[i as int].require_confirm {
            if confirm {
                Some(i)
            } else {
                None
            }
        } else if prev != Some(i) {
            Some(i)
        } else {
            None
        },
        None => None,
    }
}

/// A door triggers once per visit: after a frame in door `i` that did not go through it (so
/// the door is remembered as overlapped, and a confirm press was consumed by a door that needs
/// one), the next frame in the same door triggers nothing without a new confirm press.
pub proof fn law_door_triggers_once_per_visit(doors: Seq<DoorRule>, i: usize, confirm: bool)
    requires
        i < doors.len(),
    ensures
        candidate(doors, Some(i), Some(i), confirm && !doors[i as int].require_confirm) is None,
{
}

/// Decide the doors for this frame. `now` is the first door whose rectangle holds the player;
/// `prev_door_overlap` is last frame's and becomes `now` (cleared after a transition). A
/// confirm press is consumed by a door that needs one.
pub fn decide_door(
    doors: &Vec<DoorRule>,
    now: Option<usize>,
    input: &mut InputState,
    prev_door_overlap: &mut Option<usize>,
    world_state: &WorldState,
) -> (r: DoorDecision)
    requires
        now matches Some(i) ==> i < doors@.len(),
    ensures
        ({
            let c = candidate(doors@, now, *old(prev_door_overlap), old(input)@.confirm_pressed);
            &&& final(input)@ == (InputView {
                confirm_pressed: old(input)@.confirm_pressed && !(now matches Some(i)
                    && doors@[i as int].require_confirm),
                ..old(input)@
            })
            &&& match c {
                None => r is Nothing && *final(prev_door_overlap) == now,
                Some(i) => if gate_closed(doors@[i as int], world_state@) {
                    &&& *final(prev_door_overlap) == now
                    &&& r matches DoorDecision::Blocked { message } && message@ == match doors@[i as int].deny_message {
                        Some(m) => trim_view(m@),
                        None => ""@,
                    }
                } else {
                    r == DoorDecision::Transition(i) && *final(prev_door_overlap) is None
                },
            }
        }),
{
    let candidate = match now {
        Some(i) => {
            if doors[i].require_confirm {
                if input.is_confirm_pressed() {
                    input.clear_confirm();
                    Some(i)
                } else {
                    None
                }
            } else if match *prev_door_overlap {
                Some(p) => p != i,
                None => true,
            } {
                Some(i)
            } else {
                None
            }
        },
        None => None,
    };
    *prev_door_overlap = now;
    match candidate {
        None => DoorDecision::Nothing,
        Some(i) => {
            let door = &doors[i];
            let blocked = match &door.require_state {
                Some(req) => {
                    let t = trim(req.as_str());
                    proof {
                        crate::text::lemma_trim_idempotent(req@);
                    }
                    t.unicode_len() != 0 && !world_state_satisfies(Some(t), world_state)
                },
                None => false,
            };
            if blocked {
                let msg = match &door.deny_message {
                    Some(m) => owned(trim(m.as_str())),
                    None => owned(""),
                };
                DoorDecision::Blocked { message: msg }
            } else {
                *prev_door_overlap = None;
                DoorDecision::Transition(i)
            }
        },
    }
}

} // verus!
