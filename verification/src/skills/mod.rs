//! Data-driven skills: definitions with effect steps aimed at the caster or the opponent,
//! the registry of loaded definitions, and the backpack rules.

pub mod defs;
pub mod registry;
pub mod backpack_view;
pub mod apply;
pub mod backpack_runtime;

pub use apply::apply_skill;
pub use backpack_runtime::{
    apply_backpack_hotkey, cycle_equipped_weapon, give_skill, seed_demo_backpack,
};
pub use backpack_view::{
    cycle_equipped_weapon_in_backpack, is_weapon_skill, normalize_equipped_weapon,
    passive_ids_in_order, weapon_ids_in_order,
};
pub use crate::ecs::world::player_entity;
pub use defs::{EffectOp, EffectStep, EffectTarget, SkillCategory, SkillDef};
pub use registry::SkillRegistry;
