//! # Save games
//!
//! What a save records of the NPCs (their hit points by NPC id) and how a load puts it back,
//! and the save format version. Writing and reading the save file, and the player's position
//! (floating point), are the binary's part.

use vstd::prelude::*;

use hecs::{Entity, World};

use crate::ecs::components::Health;
use crate::ecs::world::{
    health_of, npc_entities, npc_listing, npcs_view, same_entity, set_health, world_backpacks,
    world_health, world_npc_ids, world_player_order,
};
use crate::text::{owned, str_eq};

verus! {

/// The version this game writes and reads.
pub const SAVE_FORMAT_VERSION: u32 = 1;

/// Hit points of one NPC, by its id.
#[derive(Clone, Debug)]
pub struct NpcHealthEntry {
    pub id: String,
    pub current: i32,
    pub max: i32,
}

/// Id and hit points of an entry.
pub open spec fn entry_view(e: NpcHealthEntry) -> (Seq<char>, i32, i32) {
    (e.id@, e.current, e.max)
}

/// Whether a save of format `version` can be used: `Err` with the version otherwise.
pub fn check_version(version: u32) -> (r: Result<(), u32>)
    ensures
        r == (if version == SAVE_FORMAT_VERSION {
            Ok::<(), u32>(())
        } else {
            Err(version)
        }),
{
    if version != SAVE_FORMAT_VERSION {
        return Err(version);
    }
    Ok(())
}

/// The entries a save records for the NPCs listed in `l`, in that order: one for each NPC
/// that has hit points.
pub open spec fn captured(l: Seq<(Entity, Seq<char>)>, hm: Map<Entity, Health>) -> Seq<(Seq<char>, i32, i32)>
    decreases l.len(),
{
    if l.len() == 0 {
        seq![]
    } else {
        let r = captured(l.drop_last(), hm);
        let (e, id) = l.last();
        if hm.contains_key(e) {
            r.push((id, hm[e].current, hm[e].max))
        } else {
            r
        }
    }
}

/// The hit points of every NPC that has them, by NPC id.
pub fn npc_health_entries(world: &World) -> (r: Vec<NpcHealthEntry>)
    ensures
        exists|l: Seq<(Entity, Seq<char>)>|
            npc_listing(world_npc_ids(*world), l) && r@.map_values(|e: NpcHealthEntry| entry_view(e))
                == captured(l, world_health(*world)),
{
    let npcs = npc_entities(world);
    let ghost l = npcs_view(npcs@);
    let ghost hm = world_health(*world);
    let mut out: Vec<NpcHealthEntry> = Vec::new();
    let mut i: usize = 0;
    while i < npcs.len()
        invariant
            i <= npcs@.len(),
            l == npcs_view(npcs@),
            hm == world_health(*world),
            out@.map_values(|e: NpcHealthEntry| entry_view(e)) == captured(l.take(i as int), hm),
        decreases npcs@.len() - i,
    {
        proof {
            assert(l.take(i + 1).drop_last() =~= l.take(i as int));
            assert(l.take(i + 1).last() == l[i as int]);
        }
        let e = npcs[i].0;
        let ghost before = out@;
        if let Some(h) = health_of(world, e) {
            let entry = NpcHealthEntry { id: owned(npcs[i].1.as_str()), current: h.current, max: h.max };
            out.push(entry);
            assert(out@.map_values(|e: NpcHealthEntry| entry_view(e)) =~= before.map_values(
                |e: NpcHealthEntry| entry_view(e),
            ).push(entry_view(entry)));
        }
        i = i + 1;
    }
    assert(l.take(npcs@.len() as int) =~= l);
    out
}

/// The first NPC of `l` with id `id`.
pub open spec fn first_npc(l: Seq<(Entity, Seq<char>)>, id: Seq<char>) -> Option<Entity>
    decreases l.len(),
{
    if l.len() == 0 {
        None
    } else if l[0].1 == id {
        Some(l[0].0)
    } else {
        first_npc(l.drop_first(), id)
    }
}

/// Hit points after restoring `entries` in order: each goes to the first NPC of `l` with its
/// id, when that NPC has hit points.
pub open spec fn restored(entries: Seq<NpcHealthEntry>, l: Seq<(Entity, Seq<char>)>, hm: Map<Entity, Health>) -> Map<
    Entity,
    Health,
>
    decreases entries.len(),
{
    if entries.len() == 0 {
        hm
    } else {
        let m = restored(entries.drop_last(), l, hm);
        let e = entries.last();
        match first_npc(l, e.id@) {
            Some(x) => if m.contains_key(x) {
                m.insert(x, Health { current: e.current, max: e.max })
            } else {
                m
            },
            None => m,
        }
    }
}

/// The first NPC of `npcs` with id `id`.
fn find_npc(npcs: &Vec<(Entity, String)>, id: &str) -> (r: Option<Entity>)
    ensures
        r == first_npc(npcs_view(npcs@), id@),
{
    let ghost l = npcs_view(npcs@);
    let mut i: usize = 0;
    assert(l.skip(0) =~= l);
    while i < npcs.len()
        invariant
            i <= npcs@.len(),
            l == npcs_view(npcs@),
            first_npc(l, id@) == first_npc(l.skip(i as int), id@),
        decreases npcs@.len() - i,
    {
        assert(l.skip(i as int)[0] == l[i as int]);
        assert(l.skip(i as int).drop_first() =~= l.skip(i + 1));
        if str_eq(npcs[i].1.as_str(), id) {
            return Some(npcs[i].0);
        }
        i = i + 1;
    }
    None
}

/// Put saved NPC hit points back: each entry goes to the first NPC (in query order) with its
/// id, if that NPC has hit points. Nothing else changes.
pub fn restore_npc_health(world: &mut World, entries: &Vec<NpcHealthEntry>)
    ensures
        exists|l: Seq<(Entity, Seq<char>)>|
            npc_listing(world_npc_ids(*old(world)), l) && world_health(*final(world)) == restored(
                entries@,
                l,
                world_health(*old(world)),
            ),
        world_backpacks(*final(world)) == world_backpacks(*old(world)),
        world_player_order(*final(world)) == world_player_order(*old(world)),
{
    let npcs = npc_entities(world);
    let ghost l = npcs_view(npcs@);
    let ghost hm0 = world_health(*world);
    let mut k: usize = 0;
    while k < entries.len()
        invariant
            k <= entries@.len(),
            l == npcs_view(npcs@),
            world_health(*world) == restored(entries@.take(k as int), l, hm0),
            world_backpacks(*world) == world_backpacks(*old(world)),
            world_player_order(*world) == world_player_order(*old(world)),
        decreases entries@.len() - k,
    {
        proof {
            assert(entries@.take(k + 1).drop_last() =~= entries@.take(k as int));
            assert(entries@.take(k + 1).last() == entries@[k as int]);
        }
        let entry = &entries[k];
        if let Some(e) = find_npc(&npcs, entry.id.as_str()) {
            set_health(world, e, Health { current: entry.current, max: entry.max });
        }
        k = k + 1;
    }
    assert(entries@.take(entries@.len() as int) =~= entries@);
}

} // verus!
