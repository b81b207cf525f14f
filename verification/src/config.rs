//! # Game configuration
//!
//! `assets/game.json`: the map to start on, whether to seed the demo backpack, and the window
//! title. The binary reads and parses the file; the rules for a valid configuration are here.

use vstd::prelude::*;
use vstd::string::StrSliceExecFns;

use crate::text::{owned, trim, trim_view};

verus! {

/// Top-level game bootstrap.
#[derive(Clone, Debug)]
pub struct GameConfig {
    /// Map id the game starts on (e.g. `mumhome.secondFloor`).
    pub start_map: String,
    /// Whether the demo backpack is seeded at startup.
    pub seed_demo_backpack: bool,
    /// Window title.
    pub window_title: String,
}

/// Why a configuration is refused, or `None` when it is valid: the start map and the window
/// title must not be blank.
pub open spec fn config_error(c: GameConfig) -> Option<Seq<char>> {
    if trim_view(c.start_map@).len() == 0 {
        Some("start_map must be non-empty"@)
    } else if trim_view(c.window_title@).len() == 0 {
        Some("window_title must be non-empty"@)
    } else {
        None
    }
}

impl GameConfig {
    /// Check the configuration: `Err` with the reason when the start map or the window title
    /// is blank (white space only).
    pub fn validate(&self) -> (r: Result<(), String>)
        ensures
            match r {
                Ok(()) => config_error(*self) is None,
                Err(m) => config_error(*self) == Some(m@),
            },
    {
        if trim(self.start_map.as_str()).unicode_len() == 0 {
            return Err(owned("start_map must be non-empty"));
        }
        if trim(self.window_title.as_str()).unicode_len() == 0 {
            return Err(owned("window_title must be non-empty"));
        }
        Ok(())
    }
}

} // verus!
