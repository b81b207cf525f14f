//! # Scenes
//!
//! Scripted scenes: a linear sequence of steps (a dialogue with a speaker and lines, granting
//! a skill, setting a story flag), read from `assets/scenes/{id}.scene.json` by the binary and
//! kept in a cache that loads each scene once.

pub mod defs;

pub use defs::{SceneCache, SceneDef, SceneStep};
