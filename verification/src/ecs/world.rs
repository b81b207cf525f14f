//! # The ECS world as the rules see it
//!
//! The `hecs` world holds every entity; the rules read and write three things of it: the
//! entities that carry the [`Player`] marker (in query order), each entity's [`Health`], and
//! each entity's [`Backpack`]. Those three are named here, and every access the rules make goes through a
//! small wrapper whose contract speaks of them.

use vstd::prelude::*;

use hecs::{Entity, World};

use vstd::string::StrSliceExecFns;
use vstd::string::StringExecFns;

use crate::ecs::components::{Backpack, BackpackView, Health, Npc, Player};
use crate::scene::{SceneDef, SceneStep};
use crate::text::{
    char_lower_view, char_to_lower, char_to_upper, char_upper_view, owned, split_whitespace,
    str_lower_view, str_to_lower, words_view,
};

verus! {

/// The `hecs` world type, carried opaquely.
#[verifier::external_type_specification]
#[verifier::external_body]
pub struct ExWorld(hecs::World);

/// The `hecs` entity handle, carried opaquely.
#[verifier::external_type_specification]
#[verifier::external_body]
pub struct ExEntity(hecs::Entity);

/// The entities of `w` that carry the `Player` marker, in the order `world.query::<&Player>()`
/// yields them (archetype by archetype, each archetype in storage order).
pub uninterp spec fn world_player_order(w: World) -> Seq<Entity>;

/// The player the rules act on: the first one the query yields, if any.
pub open spec fn first_player(w: World) -> Option<Entity> {
    if world_player_order(w).len() > 0 {
        Some(world_player_order(w)[0])
    } else {
        None
    }
}

/// The first entity of `order` that has a backpack in `bm`.
pub open spec fn first_with_backpack(order: Seq<Entity>, bm: Map<Entity, BackpackView>) -> Option<Entity>
    decreases order.len(),
{
    if order.len() == 0 {
        None
    } else if bm.contains_key(order[0]) {
        Some(order[0])
    } else {
        first_with_backpack(order.drop_first(), bm)
    }
}

/// The `Health` component of each entity of `w` that has one.
pub uninterp spec fn world_health(w: World) -> Map<Entity, Health>;

/// The `Backpack` component of each entity of `w` that has one.
pub uninterp spec fn world_backpacks(w: World) -> Map<Entity, BackpackView>;

/// What `{:?}` prints for an entity (`hecs` writes its index and generation).
pub uninterp spec fn entity_debug_view(e: Entity) -> Seq<char>;

/// The first entity that `world.query::<&Player>()` yields, `None` when no entity has a
/// `Player` component.
#[verifier::external_body]
pub fn player_entity(world: &World) -> (r: Option<Entity>)
    ensures
        r == first_player(*world),
{
    world.query::<&Player>().iter().next().map(|(e, _)| e)
}

/// `world.get::<&Health>(e)`, copied out: the component when `e` is alive and has one.
#[verifier::external_body]
pub(crate) fn health_of(world: &World, e: Entity) -> (r: Option<Health>)
    ensures
        match r {
            Some(h) => world_health(*world).contains_key(e) && world_health(*world)[e] == h,
            None => !world_health(*world).contains_key(e),
        },
{
    world.get::<&Health>(e).ok().map(|h| *h)
}

/// `world.get::<&mut Health>(e)` and an assignment: replaces the component when `e` has one
/// (returns `true`), else changes nothing (returns `false`). No other component changes.
#[verifier::external_body]
pub(crate) fn set_health(world: &mut World, e: Entity, h: Health) -> (r: bool)
    ensures
        r == world_health(*old(world)).contains_key(e),
        world_health(*final(world)) == if r {
            world_health(*old(world)).insert(e, h)
        } else {
            world_health(*old(world))
        },
        world_backpacks(*final(world)) == world_backpacks(*old(world)),
        world_player_order(*final(world)) == world_player_order(*old(world)),
{
    match world.get::<&mut Health>(e) {
        Ok(mut c) => {
            *c = h;
            true
        },
        Err(_) => false,
    }
}

/// `world.get::<&Backpack>(e)`, cloned out: the component when `e` is alive and has one.
#[verifier::external_body]
pub(crate) fn backpack_of(world: &World, e: Entity) -> (r: Option<Backpack>)
    ensures
        match r {
            Some(b) => world_backpacks(*world).contains_key(e) && world_backpacks(*world)[e] == b@,
            None => !world_backpacks(*world).contains_key(e),
        },
{
    world.get::<&Backpack>(e).ok().map(|b| (*b).clone())
}

/// `world.get::<&mut Backpack>(e)` and an assignment: replaces the component when `e` has
/// one (returns `true`), else changes nothing (returns `false`). No other component changes.
#[verifier::external_body]
pub(crate) fn set_backpack(world: &mut World, e: Entity, b: Backpack) -> (r: bool)
    ensures
        r == world_backpacks(*old(world)).contains_key(e),
        world_backpacks(*final(world)) == if r {
            world_backpacks(*old(world)).insert(e, b@)
        } else {
            world_backpacks(*old(world))
        },
        world_health(*final(world)) == world_health(*old(world)),
        world_player_order(*final(world)) == world_player_order(*old(world)),
{
    match world.get::<&mut Backpack>(e) {
        Ok(mut c) => {
            *c = b;
            true
        },
        Err(_) => false,
    }
}

/// The backpack of the first entity that `world.query::<(&Player, &Backpack)>()` yields.
/// That query walks the archetypes in the same order as the `&Player` query and keeps those
/// that also store a `Backpack`, so it yields the players that have one, in player order.
#[verifier::external_body]
pub(crate) fn player_backpack(world: &World) -> (r: Option<Backpack>)
    ensures
        match first_with_backpack(world_player_order(*world), world_backpacks(*world)) {
            Some(e) => r is Some && r.unwrap()@ == world_backpacks(*world)[e],
            None => r is None,
        },
{
    world.query::<(&Player, &Backpack)>().iter().next().map(|(_, (_, b))| (*b).clone())
}

/// `<Entity as PartialEq>::eq`: `hecs` derives it over the entity's id and generation, so
/// two handles are equal exactly when they are the same value.
#[verifier::external_body]
pub(crate) fn same_entity(a: Entity, b: Entity) -> (r: bool)
    ensures
        r == (a == b),
{
    a == b
}

/// The `Npc` id of each entity of `w` that has an `Npc` component.
pub uninterp spec fn world_npc_ids(w: World) -> Map<Entity, Seq<char>>;

/// `world.query::<&Npc>()`, collected with each NPC's id: every NPC entity exactly once, in
/// the order `hecs` yields them (which the contract does not state).
#[verifier::external_body]
pub(crate) fn npc_entities(world: &World) -> (r: Vec<(Entity, String)>)
    ensures
        npc_listing(world_npc_ids(*world), npcs_view(r@)),
{
    world.query::<&Npc>().iter().map(|(e, n)| (e, n.id.clone())).collect()
}

/// `format!("{:?}", e)` for an entity.
#[verifier::external_body]
pub(crate) fn entity_debug(e: Entity) -> (r: String)
    ensures
        r@ == entity_debug_view(e),
{
    format!("{e:?}")
}

/// Backpack and hit points kept across tearing the world down and setting it up again on a
/// map change.
#[derive(Clone, Debug)]
pub struct PlayerCarryover {
    pub backpack: Backpack,
    pub health: Health,
}

/// The player's hit points on first load: 5 of 5.
pub open spec fn default_player_health() -> Health {
    Health { current: 5, max: 5 }
}

/// Every NPC's hit points when the world is set up: 10 of 10.
pub open spec fn default_actor_health() -> Health {
    Health { current: 10, max: 10 }
}

/// The backpack and hit points the player is spawned with when a world is set up: those
/// carried over from the previous map, else an empty backpack and 5 of 5 hit points.
pub fn player_start(carryover: Option<PlayerCarryover>) -> (r: (Backpack, Health))
    ensures
        match carryover {
            Some(c) => r.0 == c.backpack && r.1 == c.health,
            None => r.0@ == (BackpackView { permanent: seq![], usable: seq![], equipped: None })
                && r.1 == default_player_health(),
        },
{
    match carryover {
        Some(c) => (c.backpack, c.health),
        None => {
            let b = Backpack::new();
            assert(b@.permanent =~= seq![]);
            assert(b@.usable =~= seq![]);
            (b, Health { current: 5, max: 5 })
        },
    }
}

/// The hit points each NPC is spawned with: 10 of 10.
pub fn npc_start_health() -> (r: Health)
    ensures
        r == default_actor_health(),
{
    Health { current: 10, max: 10 }
}

/// Read the player's backpack and hit points before the world is torn down for a map change:
/// `None` without a player, or when the player lacks one of the two. The world is unchanged.
pub fn take_player_carryover(world: &mut World) -> (r: Option<PlayerCarryover>)
    ensures
        *final(world) == *old(world),
        match first_player(*old(world)) {
            None => r is None,
            Some(p) => match r {
                Some(c) => world_backpacks(*old(world)).contains_key(p) && world_health(
                    *old(world),
                ).contains_key(p) && c.backpack@ == world_backpacks(*old(world))[p] && c.health
                    == world_health(*old(world))[p],
                None => !world_backpacks(*old(world)).contains_key(p) || !world_health(
                    *old(world),
                ).contains_key(p),
            },
        },
{
    let e = match player_entity(world) {
        Some(e) => e,
        None => return None,
    };
    let backpack = match backpack_of(world, e) {
        Some(b) => b,
        None => return None,
    };
    let health = match health_of(world, e) {
        Some(h) => h,
        None => return None,
    };
    Some(PlayerCarryover { backpack, health })
}

/// The characters of `w` after its first, each lower-cased.
pub open spec fn lower_tail(w: Seq<char>) -> Seq<char> {
    Seq::new((w.len() - 1) as nat, |j: int| char_lower_view(w[j + 1])).flatten()
}

/// A word with its first character upper-cased and the rest lower-cased.
pub open spec fn capitalized(w: Seq<char>) -> Seq<char> {
    char_upper_view(w[0]) + lower_tail(w)
}

/// The asset folder id for a speaker's display name: its words joined in camelCase (the first
/// word lower-cased, each later word capitalised), or `unknown` for a blank name.
pub open spec fn speaker_asset_id(speaker: Seq<char>) -> Seq<char> {
    let ws = words_view(speaker);
    if ws.len() == 0 {
        "unknown"@
    } else {
        str_lower_view(ws[0]) + Seq::new((ws.len() - 1) as nat, |k: int| capitalized(ws[k + 1])).flatten()
    }
}

proof fn lemma_flatten_new_push(n: int, f: spec_fn(int) -> Seq<char>)
    requires
        n >= 0,
    ensures
        Seq::new((n + 1) as nat, f).flatten() == Seq::new(n as nat, f).flatten() + f(n),
{
    assert(Seq::new((n + 1) as nat, f) =~= Seq::new(n as nat, f).push(f(n)));
    Seq::new(n as nat, f).lemma_flatten_push(f(n));
}

/// `w` capitalised: first character upper-cased, the rest lower-cased.
fn capitalize(w: &str) -> (r: String)
    requires
        w@.len() > 0,
    ensures
        r@ == capitalized(w@),
{
    let n = w.unicode_len();
    let first = w.get_char(0);
    let mut out = char_to_upper(first);
    let ghost head = out@;
    let mut i: usize = 1;
    assert(Seq::new(0, |j: int| char_lower_view(w@[j + 1])).flatten() =~= Seq::<char>::empty());
    while i < n
        invariant
            1 <= i <= n,
            n == w@.len(),
            out@ == head + Seq::new((i - 1) as nat, |j: int| char_lower_view(w@[j + 1])).flatten(),
        decreases n - i,
    {
        let c = w.get_char(i);
        proof {
            lemma_flatten_new_push(i - 1, |j: int| char_lower_view(w@[j + 1]));
        }
        let l = char_to_lower(c);
        out.append(l.as_str());
        i = i + 1;
    }
    out
}

/// Convert a display name like `"Bank Owner"` to its asset folder id `bankOwner`.
pub fn speaker_to_asset_id(speaker: &str) -> (r: String)
    ensures
        r@ == speaker_asset_id(speaker@),
{
    let parts = split_whitespace(speaker);
    let ghost ws = words_view(speaker@);
    if parts.len() == 0 {
        return owned("unknown");
    }
    let mut out = str_to_lower(parts[0].as_str());
    let ghost head = out@;
    assert(ws[0] == parts@[0]@);
    assert(Seq::new(0, |k: int| capitalized(ws[k + 1])).flatten() =~= Seq::<char>::empty());
    let mut i: usize = 1;
    while i < parts.len()
        invariant
            1 <= i <= parts@.len(),
            ws == crate::text::names(parts@),
            ws == words_view(speaker@),
            out@ == head + Seq::new((i - 1) as nat, |k: int| capitalized(ws[k + 1])).flatten(),
        decreases parts@.len() - i,
    {
        proof {
            lemma_flatten_new_push(i - 1, |k: int| capitalized(ws[k + 1]));
            lemma_words_nonempty(speaker@);
        }
        assert(ws[i as int] == parts@[i as int]@);
        assert(ws[i as int].len() > 0);
        let c = capitalize(parts[i].as_str());
        out.append(c.as_str());
        i = i + 1;
    }
    out
}

/// Words are never empty, and a text ending in a non-space character has a word.
proof fn lemma_words_nonempty(s: Seq<char>)
    ensures
        forall|k: int| 0 <= k < words_view(s).len() ==> #[trigger] words_view(s)[k].len() > 0,
        s.len() > 0 && !crate::text::unicode_white_space(s.last()) ==> words_view(s).len() > 0,
    decreases s.len(),
{
    if s.len() > 0 {
        let d = s.drop_last();
        lemma_words_nonempty(d);
        let w = words_view(d);
        let c = s.last();
        if !crate::text::unicode_white_space(c) && s.len() > 1 && !crate::text::unicode_white_space(
            s[s.len() - 2],
        ) {
            assert(d.last() == s[s.len() - 2]);
            assert(w.len() > 0);
            let u = w.update(w.len() - 1, w.last().push(c));
            assert forall|k: int| 0 <= k < u.len() implies #[trigger] u[k].len() > 0 by {
                if k != w.len() - 1 {
                    assert(u[k] == w[k]);
                }
            }
        } else if !crate::text::unicode_white_space(c) {
            let u = w.push(seq![c]);
            assert forall|k: int| 0 <= k < u.len() implies #[trigger] u[k].len() > 0 by {
                if k < w.len() {
                    assert(u[k] == w[k]);
                }
            }
        }
    }
}

/// Entities and ids of a list of NPCs.
pub open spec fn npcs_view(v: Seq<(Entity, String)>) -> Seq<(Entity, Seq<char>)> {
    v.map_values(|p: (Entity, String)| (p.0, p.1@))
}

/// `l` lists each NPC of `ids` exactly once, with its id.
pub open spec fn npc_listing(ids: Map<Entity, Seq<char>>, l: Seq<(Entity, Seq<char>)>) -> bool {
    &&& forall|i: int| 0 <= i < l.len() ==> ids.contains_key(#[trigger] l[i].0) && ids[l[i].0] == l[i].1
    &&& forall|e: Entity| ids.contains_key(e) ==> exists|i: int| 0 <= i < l.len() && #[trigger] l[i].0 == e
    &&& forall|i: int, j: int| 0 <= i < j < l.len() ==> #[trigger] l[i].0 != #[trigger] l[j].0
}

/// The character whose cutscene actor step `step` of a scene shows: a dialogue step's
/// portrait id when given and not empty, else its speaker's asset id; no actor for other
/// steps or past the end.
pub open spec fn scene_actor_view(steps: Seq<SceneStep>, step: int) -> Option<Seq<char>> {
    if 0 <= step < steps.len() {
        match steps[step] {
            SceneStep::Dialogue { speaker, portrait, .. } => Some(
                match portrait {
                    Some(p) => if p@.len() > 0 {
                        p@
                    } else {
                        speaker_asset_id(speaker@)
                    },
                    None => speaker_asset_id(speaker@),
                },
            ),
            _ => None,
        }
    } else {
        None
    }
}

/// The character id of the cutscene actor for step `step` of `scene_def` (see
/// [`scene_actor_view`]).
pub fn scene_actor_id(scene_def: &SceneDef, step: usize) -> (r: Option<String>)
    ensures
        match r {
            Some(s) => scene_actor_view(scene_def.steps@, step as int) == Some(s@),
            None => scene_actor_view(scene_def.steps@, step as int) is None,
        },
{
    if step >= scene_def.steps.len() {
        return None;
    }
    match &scene_def.steps[step] {
        SceneStep::Dialogue { speaker, portrait, .. } => {
            let id = match portrait {
                Some(p) => if p.as_str().unicode_len() > 0 {
                    owned(p.as_str())
                } else {
                    speaker_to_asset_id(speaker.as_str())
                },
                None => speaker_to_asset_id(speaker.as_str()),
            };
            Some(id)
        },
        _ => None,
    }
}

} // verus!
