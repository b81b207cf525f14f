//! # ECS components
//!
//! The integer and text components that the game rules read: hit points, the backpack of
//! skills, facing, animation kind, and markers for the player, NPCs, props and doors.
//! Position, scale and colour components (floating point) belong to the binary.

use vstd::prelude::*;

verus! {

/// Hit points: `current` out of `max`.
#[derive(PartialEq, Eq, Structural, Clone, Copy, Debug)]
pub struct Health {
    pub current: i32,
    pub max: i32,
}

/// A usable (consumable) skill with its remaining charges.
#[derive(Clone, Debug)]
pub struct UsableSkillStack {
    pub skill_id: String,
    pub charges: u32,
}

/// The player's skills: permanent ones (weapons and passives), usable stacks, and the
/// equipped weapon.
#[derive(Clone, Debug)]
pub struct Backpack {
    pub permanent: Vec<String>,
    pub usable: Vec<UsableSkillStack>,
    pub equipped_weapon_id: Option<String>,
}

/// What a backpack holds: permanent skill ids in order, usable stacks (id, charges) in
/// order, and the equipped weapon id.
pub struct BackpackView {
    pub permanent: Seq<Seq<char>>,
    pub usable: Seq<(Seq<char>, u32)>,
    pub equipped: Option<Seq<char>>,
}

/// Id and charges of a usable stack.
pub open spec fn stack_view(s: UsableSkillStack) -> (Seq<char>, u32) {
    (s.skill_id@, s.charges)
}

impl View for Backpack {
    type V = BackpackView;

    open spec fn view(&self) -> BackpackView {
        BackpackView {
            permanent: crate::text::names(self.permanent@),
            usable: self.usable@.map_values(|s: UsableSkillStack| stack_view(s)),
            equipped: match self.equipped_weapon_id {
                Some(s) => Some(s@),
                None => None,
            },
        }
    }
}

impl Backpack {
    /// An empty backpack.
    pub fn new() -> (r: Self)
        ensures
            r@.permanent.len() == 0,
            r@.usable.len() == 0,
            r@.equipped is None,
    {
        Backpack { permanent: Vec::new(), usable: Vec::new(), equipped_weapon_id: None }
    }
}

impl Default for Backpack {
    fn default() -> (r: Self)
        ensures
            r@.permanent.len() == 0,
            r@.usable.len() == 0,
            r@.equipped is None,
    {
        Backpack::new()
    }
}

/// Character sprite sheet by id (drawn from `assets/characters/{id}/sheet.png`).
#[derive(Clone, Debug)]
pub struct SpriteSheet {
    pub character_id: String,
}

/// Marker for the single player entity.
#[derive(Clone, Copy, Debug)]
pub struct Player;

/// NPC that talks when the player approaches: `conversation_id` keys into the dialogue
/// files; `dialogue_line` is the fallback line when the file is missing.
#[derive(Clone, Debug)]
pub struct Npc {
    pub id: String,
    pub conversation_id: String,
    pub dialogue_line: String,
}

/// Static map prop (building, barrel, ...).
#[derive(Clone, Debug)]
pub struct MapProp {
    pub id: String,
}

/// Marker for a door sprite.
#[derive(Clone, Copy, Debug)]
pub struct DoorMarker;

/// The four facings; sprite sheet rows follow this order.
#[derive(PartialEq, Eq, Structural, Clone, Copy, Debug)]
pub enum Direction {
    Down,
    Up,
    Left,
    Right,
}

impl Default for Direction {
    fn default() -> (r: Self)
        ensures
            r == Direction::Down,
    {
        Direction::Down
    }
}

/// Which way the entity is facing.
#[derive(Clone, Copy, Debug)]
pub struct Facing(pub Direction);

impl Default for Facing {
    fn default() -> (r: Self)
        ensures
            r.0 == Direction::Down,
    {
        Facing(Direction::Down)
    }
}

/// Idle or walking.
#[derive(PartialEq, Eq, Structural, Clone, Copy, Debug)]
pub enum AnimationKind {
    Idle,
    Walk,
}

} // verus!
