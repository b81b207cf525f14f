//! # Game mode
//!
//! The top-level state machine: Overworld, Dialogue, or Duel (a placeholder). Each frame the
//! binary runs the parts that need floating point (moving the player, the typewriter clock) and
//! asks the mode what follows:
//!
//! - In the overworld, a latched B press opens or closes the backpack. With the backpack
//!   closed, coming into range of an NPC (after being out of range) opens its conversation:
//!   at its entry point; else its `default_line` as a one-line conversation cached under
//!   `{id}_fallback`; and when the conversation cannot be loaded, a `...` placeholder cached
//!   under `{id}_missing`.
//! - In a dialogue, the current line is revealed a few characters at a time; confirm shows the
//!   whole line, or, once it is shown, advances (closing the dialogue at the end).

use vstd::prelude::*;
use vstd::string::StrSliceExecFns;

use crate::dialogue::tree::{lookup_node, node_index_from, node_lines_view};
use crate::dialogue::{
    advance, advance_view, current_display, entry_from, entry_point, entry_view, gate_open,
    Conversation, ConversationCache,
};
use crate::state::input::{InputState, InputView};
use crate::state::overworld::NpcInteraction;
use crate::state::world::{WorldState, WorldStateView};
use crate::ecs::components::{BackpackView, Health};
use crate::ecs::world::{
    backpack_of, first_player, player_entity, set_backpack, world_backpacks, world_health,
    world_player_order,
};
use crate::skills::backpack_runtime::{
    apply_backpack_hotkey_for, cycle_equipped_weapon_of, cycled_map, hotkey_in_range, hotkey_result,
};
use crate::skills::backpack_view::{
    cycle_in_range, equipped_index, lemma_equipped_index_bounds, law_normalize_idempotent,
    normalize_equipped_weapon, normalized_equipped, weapons_of,
};
use crate::skills::apply::skill_fits;
use crate::skills::registry::SkillRegistry;
use hecs::{Entity, World};
use crate::text::{concat, names, owned};

verus! {

/// Current game mode.
#[derive(Clone, Debug)]
pub enum AppState {
    /// `last_near_npc` remembers whether the player was in range of an NPC last frame, so a
    /// dialogue opens on coming into range, not while standing there (e.g. after closing).
    Overworld { last_near_npc: bool, backpack_open: bool },
    /// `stream_visible` counts the characters of the current line already revealed.
    Dialogue {
        npc_id: String,
        conversation_id: String,
        node_id: String,
        line_index: u32,
        stream_visible: u32,
    },
    Duel,
}

impl Default for AppState {
    fn default() -> (r: Self)
        ensures
            r == (AppState::Overworld { last_near_npc: false, backpack_open: false }),
    {
        AppState::Overworld { last_near_npc: false, backpack_open: false }
    }
}

/// `c` is the one-line conversation of `line`, as [`Conversation::one_line`] builds it.
pub open spec fn is_one_line(c: Conversation, line: Seq<char>) -> bool {
    &&& c.start@ == "start"@
    &&& c.require_state is None
    &&& c.default_line is None
    &&& c.nodes@.len() == 1
    &&& c.nodes@[0].0@ == "start"@
    &&& names(c.nodes@[0].1.lines@) == seq![line]
    &&& c.nodes@[0].1.next is None
    &&& c.nodes@[0].1.branches@.len() == 0
    &&& c.nodes@[0].1.effects@.len() == 0
}

/// A one-line conversation always opens at its only line, in any story state, and changes
/// nothing.
pub proof fn law_one_line_opens(c: Conversation, line: Seq<char>, w: WorldStateView)
    requires
        is_one_line(c, line),
    ensures
        entry_view(c, w) == (Some(("start"@, 0u32)), w),
{
    assert(node_index_from(c.nodes@, "start"@, 0) == Some(0int));
    assert(node_lines_view(c, "start"@) == c.nodes@[0].1.lines@);
    assert(names(c.nodes@[0].1.lines@).len() == 1);
}

/// The cache after `key` was given a generated one-line conversation of `line`: a
/// conversation already cached there stays.
pub open spec fn generated(before: ConversationCache, after: ConversationCache, key: Seq<char>, line: Seq<char>) -> bool {
    match before.lookup(key) {
        Some(c) => after.lookup(key) == Some(c),
        None => after.lookup(key) matches Some(c) && is_one_line(c, line),
    }
}

/// Where opening conversation `id` (whose cached or loaded conversation is `found`) leads:
/// the conversation id, node and line to show, the story state after, and the key of the
/// generated conversation and its line, if one was generated.
pub open spec fn opened(id: Seq<char>, found: Option<Conversation>, w: WorldStateView) -> (
    Option<(Seq<char>, Seq<char>, u32)>,
    WorldStateView,
    Option<(Seq<char>, Seq<char>)>,
) {
    match found {
        Some(c) => {
            let (e, w2) = entry_view(c, w);
            match e {
                Some((n, l)) => (Some((id, n, l)), w2, None),
                None => match c.default_line {
                    Some(dl) => {
                        let key = id + "_fallback"@;
                        (Some((key, "start"@, 0u32)), w2, Some((key, dl@)))
                    },
                    None => (None, w2, None),
                },
            }
        },
        None => {
            let key = id + "_missing"@;
            (Some((key, "start"@, 0u32)), w, Some((key, "..."@)))
        },
    }
}

/// Open the conversation `conversation_id` (loading it with `load` when it is not cached):
/// the conversation id, node id and line index to show, or `None` when there is nothing to
/// show. See the module documentation for the fallbacks.
pub fn open_dialogue<F: FnOnce(&str) -> Option<Conversation>>(
    cache: &mut ConversationCache,
    world_state: &mut WorldState,
    conversation_id: &str,
    load: F,
) -> (r: Option<(String, String, u32)>)
    requires
        call_requires(load, (conversation_id,)),
    ensures
        exists|found: Option<Conversation>|
            #![trigger opened(conversation_id@, found, old(world_state)@)]
            {
                let id = conversation_id@;
                let (res, w2, gen) = opened(id, found, old(world_state)@);
                &&& match old(cache).lookup(id) {
                    Some(c) => found == Some(c),
                    None => call_ensures(load, (conversation_id,), found),
                }
                &&& final(cache).lookup(id) == found
                &&& final(world_state)@ == w2
                &&& match r {
                    Some((c, n, l)) => res == Some((c@, n@, l)),
                    None => res is None,
                }
                &&& match gen {
                    Some((key, line)) => generated(*old(cache), *final(cache), key, line) && forall|
                        k: Seq<char>,
                    | k != id && k != key ==> final(cache).lookup(k) == old(cache).lookup(k),
                    None => forall|k: Seq<char>|
                        k != id ==> final(cache).lookup(k) == old(cache).lookup(k),
                }
            },
{
    let ghost w0 = world_state@;
    let (entry, default_line) = match cache.get_or_load(conversation_id, load) {
        Some(conv) => (Some(entry_point(conv, world_state)), conv.default_line.clone()),
        None => (None, None),
    };
    let ghost found = cache.lookup(conversation_id@);
    let ghost c1 = *cache;
    proof {
        reveal_strlit("_fallback");
        reveal_strlit("_missing");
    }
    let r = match entry {
        Some(Some((node_id, line_index))) => Some((owned(conversation_id), node_id, line_index)),
        Some(None) => {
            match default_line {
                Some(dl) => {
                    let fallback_id = concat(conversation_id, "_fallback");
                    assert(fallback_id@.len() > conversation_id@.len());
                    let temp = Conversation::one_line(dl.as_str());
                    proof {
                        law_one_line_opens(temp, dl@, world_state@);
                    }
                    let (node_id, line_index) = match entry_point(&temp, world_state) {
                        Some(e) => e,
                        None => {
                            proof {
                                assert(false);
                            }
                            (owned(""), 0)
                        },
                    };
                    cache.insert_generated(fallback_id.as_str(), temp);
                    Some((fallback_id, node_id, line_index))
                },
                None => None,
            }
        },
        None => {
            let fallback_id = concat(conversation_id, "_missing");
            assert(fallback_id@.len() > conversation_id@.len());
            let temp = Conversation::one_line("...");
            proof {
                law_one_line_opens(temp, "..."@, world_state@);
            }
            let (node_id, line_index) = match entry_point(&temp, world_state) {
                Some(e) => e,
                None => {
                    proof {
                        assert(false);
                    }
                    (owned(""), 0)
                },
            };
            cache.insert_generated(fallback_id.as_str(), temp);
            Some((fallback_id, node_id, line_index))
        },
    };
    proof {
        let id = conversation_id@;
        let (res, w2, gen) = opened(id, found, w0);
        assert(final(cache).lookup(id) == found);
        assert(final(world_state)@ == w2);
        assert(match r {
            Some((c, n, l)) => res == Some((c@, n@, l)),
            None => res is None,
        });
    }
    r
}

/// Backpacks after normalising the equipped weapon of `p`.
pub open spec fn normalized_map(bm: Map<Entity, BackpackView>, p: Entity, reg: SkillRegistry) -> Map<Entity, BackpackView> {
    if bm.contains_key(p) {
        bm.insert(p, BackpackView { equipped: normalized_equipped(bm[p], reg), ..bm[p] })
    } else {
        bm
    }
}

/// Normalise the equipped weapon of the player (the first player entity), as on opening the
/// backpack or loading a save. Nothing else changes; nothing happens without a player or
/// when the player has no backpack.
pub fn normalize_player_weapon(world: &mut World, registry: &SkillRegistry)
    ensures
        world_health(*final(world)) == world_health(*old(world)),
        world_player_order(*final(world)) == world_player_order(*old(world)),
        world_backpacks(*final(world)) == match first_player(*old(world)) {
            None => world_backpacks(*old(world)),
            Some(p) => normalized_map(world_backpacks(*old(world)), p, *registry),
        },
{
    if let Some(p) = player_entity(world) {
        if let Some(mut b) = backpack_of(world, p) {
            normalize_equipped_weapon(&mut b, registry);
            set_backpack(world, p, b);
        }
    }
}

/// Hit points and backpacks after a frame with the backpack open for player `p`: the
/// equipped weapon is normalised, then the pending hotkey `digit` and the pending weapon
/// cycle `step` are applied.
pub open spec fn backpack_frame_result(
    reg: SkillRegistry,
    digit: Option<u8>,
    step: Option<i32>,
    opponent: Option<Entity>,
    p: Entity,
    hm: Map<Entity, Health>,
    bm: Map<Entity, BackpackView>,
) -> (Map<Entity, Health>, Map<Entity, BackpackView>) {
    let bm1 = normalized_map(bm, p, reg);
    let (hm2, bm2) = match digit {
        Some(d) => hotkey_result(reg, d, opponent, p, hm, bm1),
        None => (hm, bm1),
    };
    match step {
        Some(s) => (hm2, cycled_map(bm2, p, reg, s)),
        None => (hm2, bm2),
    }
}

/// The `i32` arithmetic of such a frame stays in range: the hotkey's hit-point arithmetic, and
/// for a cycle step (±1) the weapon count.
pub open spec fn backpack_frame_in_range(
    reg: SkillRegistry,
    digit: Option<u8>,
    step: Option<i32>,
    opponent: Option<Entity>,
    p: Entity,
    hm: Map<Entity, Health>,
    bm: Map<Entity, BackpackView>,
) -> bool {
    &&& (digit matches Some(d) ==> hotkey_in_range(reg, d, opponent, p, hm, normalized_map(bm, p, reg)))
    &&& (step matches Some(s) ==> (s == 1 || s == -1) && (bm.contains_key(p) ==> bm[p].permanent.len()
        <= i32::MAX))
}

/// Whether a frame with the backpack open for `player` stays in range (see
/// [`backpack_frame_in_range`]).
pub fn backpack_frame_fits(
    world: &World,
    registry: &SkillRegistry,
    input: &InputState,
    player: Entity,
    opponent: Option<Entity>,
) -> (r: bool)
    ensures
        r == backpack_frame_in_range(
            *registry,
            input@.digit,
            input@.cycle,
            opponent,
            player,
            world_health(*world),
            world_backpacks(*world),
        ),
{
    let ghost reg = *registry;
    let ghost hm = world_health(*world);
    let ghost bm = world_backpacks(*world);
    let b = backpack_of(world, player);
    let cycle_ok = match input.peek_weapon_cycle_step() {
        None => true,
        Some(s) => (s == 1 || s == -1) && match &b {
            Some(bp) => bp.permanent.len() <= 0x7fff_ffff,
            None => true,
        },
    };
    if !cycle_ok {
        return false;
    }
    let d = match input.peek_skill_hotkey_digit() {
        None => return true,
        Some(d) => d,
    };
    let mut bp = match b {
        Some(bp) => bp,
        None => {
            assert(!normalized_map(bm, player, reg).contains_key(player));
            return true;
        },
    };
    let ghost b0 = bp@;
    normalize_equipped_weapon(&mut bp, registry);
    let ghost bm1 = normalized_map(bm, player, reg);
    assert(bm1[player] == bp@);
    if d == 1 {
        proof {
            law_normalize_idempotent(b0, reg);
        }
        let id = match &bp.equipped_weapon_id {
            Some(id) => id,
            None => return true,
        };
        let skill = match registry.get(id.as_str()) {
            Some(s) => s,
            None => return true,
        };
        match opponent {
            Some(o) => skill_fits(skill, world, player, o),
            None => true,
        }
    } else if d == 2 {
        if bp.usable.len() == 0 {
            return true;
        }
        assert(bm1[player].usable[0] == (bp.usable@[0].skill_id@, bp.usable@[0].charges));
        let skill = match registry.get(bp.usable[0].skill_id.as_str()) {
            Some(s) => s,
            None => return true,
        };
        skill_fits(skill, world, player, player)
    } else {
        true
    }
}

/// One frame with the backpack open, for the player entity `player`: normalise its equipped
/// weapon, then use the pending hotkey digit (on `opponent`, the nearest NPC in range, for a
/// weapon) and the pending weapon-cycle step. Both are consumed.
pub fn backpack_frame(
    world: &mut World,
    registry: &SkillRegistry,
    input: &mut InputState,
    player: Entity,
    opponent: Option<Entity>,
)
    requires
        backpack_frame_in_range(
            *registry,
            old(input)@.digit,
            old(input)@.cycle,
            opponent,
            player,
            world_health(*old(world)),
            world_backpacks(*old(world)),
        ),
    ensures
        final(input)@ == (InputView { digit: None, cycle: None, ..old(input)@ }),
        world_player_order(*final(world)) == world_player_order(*old(world)),
        (world_health(*final(world)), world_backpacks(*final(world))) == backpack_frame_result(
            *registry,
            old(input)@.digit,
            old(input)@.cycle,
            opponent,
            player,
            world_health(*old(world)),
            world_backpacks(*old(world)),
        ),
{
    let ghost hm = world_health(*world);
    let ghost bm = world_backpacks(*world);
    let ghost reg = *registry;
    let ghost digit = input@.digit;
    if let Some(mut b) = backpack_of(world, player) {
        normalize_equipped_weapon(&mut b, registry);
        set_backpack(world, player, b);
    }
    assert(world_backpacks(*world) == normalized_map(bm, player, reg));
    let ghost bm1 = world_backpacks(*world);
    if let Some(d) = input.take_skill_hotkey_digit() {
        apply_backpack_hotkey_for(world, registry, player, d, opponent);
    }
    proof {
        // Whatever the hotkey did, the player's permanent skills and equipped weapon are those
        // after normalising, which is what the cycle step needs to stay in range.
        if bm.contains_key(player) {
            let b1 = bm1[player];
            law_normalize_idempotent(bm[player], reg);
            if world_backpacks(*world).contains_key(player) {
                let b2 = world_backpacks(*world)[player];
                assert(b2.permanent == b1.permanent && b2.equipped == b1.equipped);
                assert(weapons_of(b2, reg) == weapons_of(b1, reg));
                assert(normalized_equipped(b2, reg) == normalized_equipped(b1, reg));
                lemma_equipped_index_bounds(b2, reg);
            }
        }
    }
    if let Some(step) = input.take_weapon_cycle_step() {
        cycle_equipped_weapon_of(world, registry, player, step);
    }
}

/// The characters of line `li` of node `node` (0 when there is no such line), counted in a
/// `u32`.
pub open spec fn line_len(c: Conversation, node: Seq<char>, li: u32) -> u32 {
    let lines = node_lines_view(c, node);
    if li < lines.len() {
        lines[li as int]@.len() as u32
    } else {
        0
    }
}

/// `found` is what `cache` holds under `key`, when it holds something.
pub open spec fn cached_or(cache: ConversationCache, key: Seq<char>, found: Option<Conversation>) -> bool {
    cache.lookup(key) matches Some(c) ==> found == Some(c)
}

/// The state after a dialogue ends: back in the overworld, in range of the NPC.
pub open spec fn closed_dialogue() -> AppState {
    AppState::Overworld { last_near_npc: true, backpack_open: false }
}

impl AppState {
    /// Whether the mode is the overworld with the backpack open.
    pub fn backpack_is_open(&self) -> (r: bool)
        ensures
            r == (*self matches AppState::Overworld { backpack_open, .. } && backpack_open),
    {
        match self {
            AppState::Overworld { backpack_open, .. } => *backpack_open,
            _ => false,
        }
    }

    /// Take this frame's save (F5) and load (F9) requests, clearing both. They are acted on
    /// only while the backpack is open and dropped otherwise; the result says whether to save
    /// and whether to load.
    pub fn take_save_load_requests(&self, input: &mut InputState) -> (r: (bool, bool))
        ensures
            r.0 == (old(input)@.save && (*self matches AppState::Overworld { backpack_open, .. }
                && backpack_open)),
            r.1 == (old(input)@.load && (*self matches AppState::Overworld { backpack_open, .. }
                && backpack_open)),
            final(input)@ == (InputView { save: false, load: false, ..old(input)@ }),
    {
        let save = input.take_save_game_request();
        let load = input.take_load_game_request();
        let open = self.backpack_is_open();
        (save && open, load && open)
    }

    /// Overworld: a latched B press opens or closes the backpack and is consumed. In the other
    /// modes nothing changes.
    pub fn toggle_backpack(&mut self, input: &mut InputState)
        ensures
            match *old(self) {
                AppState::Overworld { last_near_npc, backpack_open } => if old(input)@.backpack_pressed {
                    *final(self) == (AppState::Overworld { last_near_npc, backpack_open: !backpack_open })
                        && final(input)@ == (InputView { backpack_pressed: false, ..old(input)@ })
                } else {
                    *final(self) == *old(self) && final(input)@ == old(input)@
                },
                _ => *final(self) == *old(self) && final(input)@ == old(input)@,
            },
    {
        if let AppState::Overworld { last_near_npc, backpack_open } = self {
            if input.is_backpack_pressed() {
                *backpack_open = !*backpack_open;
                input.clear_backpack();
            }
        }
    }

    /// Overworld with the backpack closed, after the player moved: `trigger` is the NPC in
    /// range (if any) and `near_now` whether one is. Coming into range (not being in range
    /// last frame) opens the NPC's conversation with [`open_dialogue`]; otherwise, or when
    /// there is nothing to show, the range flag is remembered. In the other modes nothing
    /// changes.
    pub fn after_overworld_move<F: FnOnce(&str) -> Option<Conversation>>(
        &mut self,
        trigger: Option<NpcInteraction>,
        near_now: bool,
        cache: &mut ConversationCache,
        world_state: &mut WorldState,
        load: F,
    )
        requires
            forall|s: &str| call_requires(load, (s,)),
        ensures
            match *old(self) {
                AppState::Overworld { last_near_npc, backpack_open: false } => {
                    if !last_near_npc && trigger is Some {
                        let t = trigger->0;
                        exists|found: Option<Conversation>|
                            #![trigger opened(t.conversation_id@, found, old(world_state)@)]
                            {
                                let id = t.conversation_id@;
                                let (res, w2, gen) = opened(id, found, old(world_state)@);
                                &&& match old(cache).lookup(id) {
                                    Some(c) => found == Some(c),
                                    None => exists|a: &str| a@ == id && call_ensures(load, (a,), found),
                                }
                                &&& final(cache).lookup(id) == found
                                &&& final(world_state)@ == w2
                                &&& match res {
                                    Some((c, n, l)) => *final(self) matches AppState::Dialogue {
                                        npc_id,
                                        conversation_id,
                                        node_id,
                                        line_index,
                                        stream_visible,
                                    } && npc_id@ == t.npc_id@ && conversation_id@ == c && node_id@ == n
                                        && line_index == l && stream_visible == 0,
                                    None => *final(self) == (AppState::Overworld {
                                        last_near_npc: near_now,
                                        backpack_open: false,
                                    }),
                                }
                                &&& match gen {
                                    Some((key, line)) => generated(*old(cache), *final(cache), key, line)
                                        && forall|k: Seq<char>|
                                        k != id && k != key ==> final(cache).lookup(k) == old(cache).lookup(k),
                                    None => forall|k: Seq<char>|
                                        k != id ==> final(cache).lookup(k) == old(cache).lookup(k),
                                }
                            }
                    } else {
                        *final(self) == (AppState::Overworld {
                            last_near_npc: near_now,
                            backpack_open: false,
                        }) && final(world_state)@ == old(world_state)@ && forall|k: Seq<char>|
                            final(cache).lookup(k) == old(cache).lookup(k)
                    }
                },
                _ => *final(self) == *old(self) && final(world_state)@ == old(world_state)@
                    && forall|k: Seq<char>| final(cache).lookup(k) == old(cache).lookup(k),
            },
    {
        let last = match self {
            AppState::Overworld { last_near_npc, backpack_open } => {
                if *backpack_open {
                    return;
                }
                *last_near_npc
            },
            _ => return,
        };
        if !last {
            if let Some(interaction) = trigger {
                let opened = open_dialogue(cache, world_state, interaction.conversation_id.as_str(), load);
                if let Some((conversation_id, node_id, line_index)) = opened {
                    *self = AppState::Dialogue {
                        npc_id: interaction.npc_id,
                        conversation_id,
                        node_id,
                        line_index,
                        stream_visible: 0,
                    };
                    return;
                }
            }
        }
        *self = AppState::Overworld { last_near_npc: near_now, backpack_open: false };
    }

    /// Dialogue: the number of characters of the current line (0 when the node has no such
    /// line), loading the conversation with `load` when it is not cached. When it can be
    /// neither found nor loaded the dialogue closes and the result is `None`. In the other
    /// modes the result is `None` and nothing changes.
    pub fn dialogue_line_len<F: FnOnce(&str) -> Option<Conversation>>(&mut self, cache: &mut ConversationCache, load: F) -> (r:
        Option<u32>)
        requires
            forall|s: &str| call_requires(load, (s,)),
        ensures
            match *old(self) {
                AppState::Dialogue { conversation_id, node_id, line_index, .. } => exists|
                    found: Option<Conversation>,
                | {
                    &&& #[trigger] cached_or(*old(cache), conversation_id@, found)
                    &&& (old(cache).lookup(conversation_id@) is None ==> exists|a: &str|
                        a@ == conversation_id@ && call_ensures(load, (a,), found))
                    &&& final(cache).lookup(conversation_id@) == found
                    &&& forall|k: Seq<char>|
                        k != conversation_id@ ==> final(cache).lookup(k) == old(cache).lookup(k)
                    &&& match found {
                        Some(c) => r == Some(line_len(c, node_id@, line_index)) && *final(self)
                            == *old(self),
                        None => r is None && *final(self) == closed_dialogue(),
                    }
                },
                _ => r is None && *final(self) == *old(self) && forall|k: Seq<char>|
                    final(cache).lookup(k) == old(cache).lookup(k),
            },
    {
        let ghost c0 = *cache;
        let ghost s0 = *self;
        let len = match self {
            AppState::Dialogue { conversation_id, node_id, line_index, .. } => {
                match cache.get_or_load(conversation_id.as_str(), load) {
                    Some(conv) => match current_display(conv, node_id.as_str(), *line_index) {
                        Some(line) => Some(#[verifier::truncate] (line.unicode_len() as u32)),
                        None => Some(0),
                    },
                    None => None,
                }
            },
            _ => return None,
        };
        proof {
            if let AppState::Dialogue { conversation_id, .. } = s0 {
                let found = cache.lookup(conversation_id@);
                assert(cached_or(c0, conversation_id@, found));
            }
        }
        if len.is_none() {
            *self = AppState::Overworld { last_near_npc: true, backpack_open: false };
        }
        len
    }

    /// Dialogue: reveal up to `n` more characters of a line of `len` characters. In the other
    /// modes nothing changes.
    pub fn reveal_chars(&mut self, n: u32, len: u32)
        ensures
            match *old(self) {
                AppState::Dialogue { npc_id, conversation_id, node_id, line_index, stream_visible } => *final(self)
                    == (AppState::Dialogue {
                    npc_id,
                    conversation_id,
                    node_id,
                    line_index,
                    stream_visible: if stream_visible < len {
                        if stream_visible + n < len {
                            (stream_visible + n) as u32
                        } else {
                            len
                        }
                    } else {
                        stream_visible
                    },
                }),
                _ => *final(self) == *old(self),
            },
    {
        if let AppState::Dialogue { stream_visible, .. } = self {
            if *stream_visible < len {
                if n < len - *stream_visible {
                    *stream_visible = *stream_visible + n;
                } else {
                    *stream_visible = len;
                }
            }
        }
    }

    /// Dialogue: handle a latched confirm press (consumed) for a line of `len` characters:
    /// while the line is still being revealed, show all of it; once it is shown, advance (the
    /// dialogue closes when the conversation ends). Returns whether the reveal starts over (a
    /// new line). Nothing happens without a press, in the other modes, or when the
    /// conversation is not cached.
    pub fn dialogue_confirm(
        &mut self,
        input: &mut InputState,
        cache: &ConversationCache,
        world_state: &mut WorldState,
        len: u32,
    ) -> (restart: bool)
        requires
            *old(self) matches AppState::Dialogue { line_index, .. } ==> line_index < u32::MAX,
        ensures
            match *old(self) {
                AppState::Dialogue { npc_id, conversation_id, node_id, line_index, stream_visible } => {
                    if !old(input)@.confirm_pressed || cache.lookup(conversation_id@) is None {
                        !restart && *final(self) == *old(self) && final(input)@ == old(input)@
                            && final(world_state)@ == old(world_state)@
                    } else if stream_visible < len {
                        &&& !restart
                        &&& final(input)@ == (InputView { confirm_pressed: false, ..old(input)@ })
                        &&& final(world_state)@ == old(world_state)@
                        &&& *final(self) == (AppState::Dialogue {
                            npc_id,
                            conversation_id,
                            node_id,
                            line_index,
                            stream_visible: len,
                        })
                    } else {
                        let c = cache.lookup(conversation_id@)->0;
                        let (n, l, fin, w2) = advance_view(c, node_id@, line_index, old(world_state)@);
                        &&& final(input)@ == (InputView { confirm_pressed: false, ..old(input)@ })
                        &&& final(world_state)@ == w2
                        &&& if fin {
                            !restart && *final(self) == closed_dialogue()
                        } else {
                            &&& restart
                            &&& *final(self) matches AppState::Dialogue {
                                npc_id: i2,
                                conversation_id: c2,
                                node_id: n2,
                                line_index: l2,
                                stream_visible: v2,
                            }
                            &&& i2 == npc_id && c2 == conversation_id && n2@ == n && l2 == l && v2 == 0
                        }
                    }
                },
                _ => !restart && *final(self) == *old(self) && final(input)@ == old(input)@
                    && final(world_state)@ == old(world_state)@,
            },
    {
        if !input.is_confirm_pressed() {
            return false;
        }
        let (conv, visible) = match self {
            AppState::Dialogue { conversation_id, stream_visible, .. } => match cache.get(conversation_id.as_str()) {
                Some(c) => (c, *stream_visible),
                None => return false,
            },
            _ => return false,
        };
        input.clear_confirm();
        if visible < len {
            if let AppState::Dialogue { stream_visible, .. } = self {
                *stream_visible = len;
            }
            return false;
        }
        let result = match self {
            AppState::Dialogue { node_id, line_index, .. } => advance(conv, node_id.as_str(), *line_index, world_state),
            _ => return false,
        };
        if result.finished {
            *self = AppState::Overworld { last_near_npc: true, backpack_open: false };
            false
        } else {
            if let AppState::Dialogue { node_id, line_index, stream_visible, .. } = self {
                *node_id = result.node_id;
                *line_index = result.line_index;
                *stream_visible = 0;
            }
            true
        }
    }

    /// Dialogue: the full current line, when its conversation is cached and the node has it.
    pub fn dialogue_message(&self, cache: &ConversationCache) -> (r: Option<String>)
        ensures
            match *self {
                AppState::Dialogue { conversation_id, node_id, line_index, .. } => match cache.lookup(
                    conversation_id@,
                ) {
                    Some(c) => match r {
                        Some(t) => line_index < node_lines_view(c, node_id@).len() && t@ == node_lines_view(
                            c,
                            node_id@,
                        )[line_index as int]@,
                        None => line_index >= node_lines_view(c, node_id@).len(),
                    },
                    None => r is None,
                },
                _ => r is None,
            },
    {
        match self {
            AppState::Dialogue { conversation_id, node_id, line_index, .. } => match cache.get(
                conversation_id.as_str(),
            ) {
                Some(conv) => match current_display(conv, node_id.as_str(), *line_index) {
                    Some(line) => Some(owned(line)),
                    None => None,
                },
                None => None,
            },
            _ => None,
        }
    }

    /// Dialogue: the current line cut to the characters revealed so far (what is drawn).
    pub fn dialogue_display_text(&self, cache: &ConversationCache) -> (r: Option<String>)
        ensures
            match *self {
                AppState::Dialogue { conversation_id, node_id, line_index, stream_visible, .. } => match cache.lookup(
                    conversation_id@,
                ) {
                    Some(c) => match r {
                        Some(t) => line_index < node_lines_view(c, node_id@).len() && t@ == node_lines_view(
                            c,
                            node_id@,
                        )[line_index as int]@.take(
                            if stream_visible < node_lines_view(c, node_id@)[line_index as int]@.len() {
                                stream_visible as int
                            } else {
                                node_lines_view(c, node_id@)[line_index as int]@.len() as int
                            },
                        ),
                        None => line_index >= node_lines_view(c, node_id@).len(),
                    },
                    None => r is None,
                },
                _ => r is None,
            },
    {
        match self {
            AppState::Dialogue { conversation_id, node_id, line_index, stream_visible, .. } => match cache.get(
                conversation_id.as_str(),
            ) {
                Some(conv) => match current_display(conv, node_id.as_str(), *line_index) {
                    Some(line) => {
                        let n = line.unicode_len();
                        let k = if (*stream_visible as usize) < n {
                            *stream_visible as usize
                        } else {
                            n
                        };
                        let part = line.substring_char(0, k);
                        assert(part@ =~= line@.take(k as int));
                        Some(owned(part))
                    },
                    None => None,
                },
                None => None,
            },
            _ => None,
        }
    }
}

} // verus!
