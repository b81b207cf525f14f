//! # ECS
//!
//! Components the rules read, and the `hecs` world as the rules see it.

pub mod components;
pub mod world;

pub use components::{
    AnimationKind, Backpack, Direction, DoorMarker, Facing, Health, MapProp, Npc, Player,
    SpriteSheet, UsableSkillStack,
};
pub use hecs::World;
