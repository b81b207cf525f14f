//! # State
//!
//! Story progress (`WorldState`, `StoryState`), keyboard intent (`InputState`), and the
//! decisions of the game loop: the game mode and map-door transitions.

pub mod story;
pub mod world;
pub mod input;
pub mod map_transition;
pub mod overworld;
pub mod app;

pub use input::InputState;
pub use story::StoryState;
pub use world::{WorldState, WorldStateSnapshot};
