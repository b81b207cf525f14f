//! # Overworld
//!
//! What one overworld frame reports to the game mode: the NPC the player came into range of.
//! Moving the player, facing, walk animation and tile collision (world coordinates, floating
//! point) are the binary's part.

use vstd::prelude::*;

verus! {

/// The NPC the player is in range of: its id and the conversation it opens.
#[derive(Clone, Debug)]
pub struct NpcInteraction {
    pub npc_id: String,
    pub conversation_id: String,
}

} // verus!
