//! # BangBang game library
//!
//! The rules of a small top-down western: story state and quests, branching dialogue trees,
//! skills and the backpack, tile grids and their collision, Wang autotiling, and the integer
//! geometry of the software renderer and the UI layout. Every function here carries a contract
//! that Verus checks; the binary around it (window, GPU, files, JSON) lives in `app/`.

pub mod text;
pub mod cache;
pub mod state;
pub mod dialogue;
pub mod ecs;
pub mod skills;
pub mod map;
pub mod map_loader;
pub mod render;
pub mod assets;
pub mod ui;
pub mod software;
pub mod config;
pub mod scene;
pub mod save_game;
pub mod atlas;
