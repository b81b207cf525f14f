//! Seed the backpack, grant skills, cycle the weapon, and handle the backpack hotkeys, on the
//! player's entity in the world.

use vstd::prelude::*;

use hecs::{Entity, World};

use crate::ecs::components::{Backpack, BackpackView, UsableSkillStack};
use crate::ecs::world::{
    backpack_of, first_player, player_entity, set_backpack, world_backpacks, world_health,
    world_player_order,
};
use crate::skills::apply::{apply_skill, steps_outcome, SkillOutcome};
use crate::skills::backpack_view::{
    cycle_equipped_weapon_in_backpack, cycle_in_range, cycled_equipped, normalize_equipped_weapon,
    normalized_equipped,
};
use crate::skills::defs::SkillCategory;
use crate::skills::registry::SkillRegistry;
use crate::ecs::components::Health;
use crate::text::{concat, list_contains, owned, str_eq};

verus! {

/// The demo backpack: permanent sidearm (equipped) and one stack of beer.
pub open spec fn demo_backpack(charges: u32) -> BackpackView {
    BackpackView {
        permanent: seq!["sidearm"@],
        usable: seq![("beer"@, charges)],
        equipped: Some("sidearm"@),
    }
}

/// Whether `w` has no player entity.
pub open spec fn no_player(w: World) -> bool {
    first_player(w) is None
}

/// Grant the demo skills to the player: a permanent sidearm (equipped) and beer with its
/// default charges. Fails without a player, without a beer definition or its default
/// charges, or when the player has no backpack.
pub fn seed_demo_backpack(world: &mut World, registry: &SkillRegistry) -> (r: Result<(), String>)
    ensures
        world_health(*final(world)) == world_health(*old(world)),
        world_player_order(*final(world)) == world_player_order(*old(world)),
        if no_player(*old(world)) {
            (r matches Err(m) && m@ == "skills: no Player entity"@) && world_backpacks(*final(world))
                == world_backpacks(*old(world))
        } else if registry.lookup("beer"@) is None {
            (r matches Err(m) && m@ == "skills: missing beer definition"@) && world_backpacks(
                *final(world),
            ) == world_backpacks(*old(world))
        } else if registry.lookup("beer"@).unwrap().charges_default is None {
            (r matches Err(m) && m@ == "skills: beer must define charges_default"@) && world_backpacks(
                *final(world),
            ) == world_backpacks(*old(world))
        } else {
            let p = first_player(*old(world)).unwrap();
            if world_backpacks(*old(world)).contains_key(p) {
                    r is Ok && world_backpacks(*final(world)) == world_backpacks(*old(world)).insert(
                        p,
                        demo_backpack(registry.lookup("beer"@).unwrap().charges_default.unwrap()),
                    )
                } else {
                    (r matches Err(m) && m@ == "skills: player has no Backpack"@) && world_backpacks(
                        *final(world),
                    ) == world_backpacks(*old(world))
                }
        },
{
    let player = match player_entity(world) {
        Some(p) => p,
        None => return Err(owned("skills: no Player entity")),
    };
    let beer_id: &str = "beer";
    let beer = match registry.get(beer_id) {
        Some(b) => b,
        None => return Err(owned("skills: missing beer definition")),
    };
    let charges = match beer.charges_default {
        Some(c) => c,
        None => return Err(owned("skills: beer must define charges_default")),
    };
    if backpack_of(world, player).is_none() {
        return Err(owned("skills: player has no Backpack"));
    }
    let mut permanent: Vec<String> = Vec::new();
    permanent.push(owned("sidearm"));
    let mut usable: Vec<UsableSkillStack> = Vec::new();
    usable.push(UsableSkillStack { skill_id: owned("beer"), charges });
    let b = Backpack { permanent, usable, equipped_weapon_id: Some(owned("sidearm")) };
    assert(b@.permanent =~= seq!["sidearm"@]);
    assert(b@.usable =~= seq![("beer"@, charges)]);
    assert(b@ =~= demo_backpack(charges));
    set_backpack(world, player, b);
    Ok(())
}

/// Cycle the player's equipped weapon by `delta` (+1 / -1). Without a player or a backpack,
/// nothing changes.
pub fn cycle_equipped_weapon(world: &mut World, registry: &SkillRegistry, delta: i32)
    requires
        first_player(*old(world)) matches Some(p) ==> (world_backpacks(*old(world)).contains_key(p)
            ==> cycle_in_range(world_backpacks(*old(world))[p], *registry, delta)),
    ensures
        world_health(*final(world)) == world_health(*old(world)),
        world_player_order(*final(world)) == world_player_order(*old(world)),
        no_player(*old(world)) ==> world_backpacks(*final(world)) == world_backpacks(*old(world)),
        first_player(*old(world)) matches Some(p) ==> world_backpacks(*final(world))
            == cycled_map(world_backpacks(*old(world)), p, *registry, delta),
{
    let player = match player_entity(world) {
        Some(p) => p,
        None => return,
    };
    cycle_equipped_weapon_of(world, registry, player, delta);
}

/// Backpacks after cycling the weapon of `p` by `delta` (unchanged when `p` has none).
pub open spec fn cycled_map(bm: Map<Entity, BackpackView>, p: Entity, reg: SkillRegistry, delta: i32) -> Map<Entity, BackpackView> {
    if bm.contains_key(p) {
        bm.insert(p, BackpackView { equipped: cycled_equipped(bm[p], reg, delta), ..bm[p] })
    } else {
        bm
    }
}

/// Cycle the equipped weapon of entity `p` by `delta`.
pub fn cycle_equipped_weapon_of(world: &mut World, registry: &SkillRegistry, p: Entity, delta: i32)
    requires
        world_backpacks(*old(world)).contains_key(p) ==> cycle_in_range(
            world_backpacks(*old(world))[p],
            *registry,
            delta,
        ),
    ensures
        world_health(*final(world)) == world_health(*old(world)),
        world_player_order(*final(world)) == world_player_order(*old(world)),
        world_backpacks(*final(world)) == cycled_map(world_backpacks(*old(world)), p, *registry, delta),
{
    let mut b = match backpack_of(world, p) {
        Some(b) => b,
        None => return,
    };
    cycle_equipped_weapon_in_backpack(&mut b, registry, delta);
    set_backpack(world, p, b);
}

/// Backpack after granting skill `id` (a weapon when `weapon`): added to the permanent skills
/// unless already there, and equipped if it is a weapon and nothing is equipped.
pub open spec fn granted(b: BackpackView, id: Seq<char>, weapon: bool) -> BackpackView {
    BackpackView {
        permanent: if b.permanent.contains(id) {
            b.permanent
        } else {
            b.permanent.push(id)
        },
        equipped: if weapon && b.equipped is None {
            Some(id)
        } else {
            b.equipped
        },
        ..b
    }
}

/// Granting the same skill twice is granting it once.
pub proof fn law_grant_idempotent(b: BackpackView, id: Seq<char>, weapon: bool)
    ensures
        granted(granted(b, id, weapon), id, weapon) == granted(b, id, weapon),
{
    let g = granted(b, id, weapon);
    if !b.permanent.contains(id) {
        assert(b.permanent.push(id)[b.permanent.len() as int] == id);
        assert(g.permanent.contains(id));
    }
    assert(granted(g, id, weapon) =~= g);
}

/// Whether granting skill `id` to player `p` succeeds: the skill is known, there is a
/// player, and it has a backpack.
pub open spec fn give_ok(reg: SkillRegistry, id: Seq<char>, p: Option<Entity>, bm: Map<Entity, BackpackView>) -> bool {
    &&& reg.lookup(id) is Some
    &&& p is Some
    &&& bm.contains_key(p.unwrap())
}

/// Backpacks after granting skill `id` to player `p`: the player's backpack as [`granted`]
/// gives it when that succeeds, else unchanged.
pub open spec fn given_backpacks(reg: SkillRegistry, id: Seq<char>, p: Option<Entity>, bm: Map<Entity, BackpackView>) -> Map<Entity, BackpackView> {
    if give_ok(reg, id, p, bm) {
        let e = p.unwrap();
        bm.insert(e, granted(bm[e], id, reg.lookup(id).unwrap().subcategory@ == "weapon"@))
    } else {
        bm
    }
}

/// Granting a skill to the player a second time changes nothing and succeeds again: the
/// player stays the same (granting keeps the players and their order), and the backpacks
/// after two grants are those after one.
pub proof fn law_give_skill_idempotent(reg: SkillRegistry, id: Seq<char>, p: Option<Entity>, bm: Map<Entity, BackpackView>)
    ensures
        given_backpacks(reg, id, p, given_backpacks(reg, id, p, bm)) == given_backpacks(reg, id, p, bm),
        give_ok(reg, id, p, bm) ==> give_ok(reg, id, p, given_backpacks(reg, id, p, bm)),
{
    if give_ok(reg, id, p, bm) {
        let e = p.unwrap();
        let w = reg.lookup(id).unwrap().subcategory@ == "weapon"@;
        law_grant_idempotent(bm[e], id, w);
        let once = given_backpacks(reg, id, p, bm);
        assert(once[e] == granted(bm[e], id, w));
        assert(given_backpacks(reg, id, p, once) =~= once);
    }
}

/// Grant a skill to the player (the first player entity) by id. Idempotent: no duplicate in
/// the permanent skills. Equips the skill if it is a weapon and no weapon is equipped. Fails
/// for an unknown skill, without a player, or when the player has no backpack.
pub fn give_skill(world: &mut World, registry: &SkillRegistry, skill_id: &str) -> (r: Result<(), String>)
    ensures
        world_health(*final(world)) == world_health(*old(world)),
        world_player_order(*final(world)) == world_player_order(*old(world)),
        world_backpacks(*final(world)) == given_backpacks(
            *registry,
            skill_id@,
            first_player(*old(world)),
            world_backpacks(*old(world)),
        ),
        r is Ok <==> give_ok(*registry, skill_id@, first_player(*old(world)), world_backpacks(*old(world))),
        registry.lookup(skill_id@) is None ==> (r matches Err(m) && m@ == "give_skill: unknown skill '"@
            + skill_id@ + "'"@),
        registry.lookup(skill_id@) is Some && no_player(*old(world)) ==> (r matches Err(m) && m@
            == "give_skill: no Player entity in world"@),
        first_player(*old(world)) matches Some(p) ==> (registry.lookup(skill_id@) is Some
            && !world_backpacks(*old(world)).contains_key(p) ==> (r matches Err(m) && m@
            == "give_skill: player has no Backpack component"@)),
{
    let def = match registry.get(skill_id) {
        Some(d) => d,
        None => {
            let a = concat("give_skill: unknown skill '", skill_id);
            return Err(concat(a.as_str(), "'"));
        },
    };
    let player = match player_entity(world) {
        Some(p) => p,
        None => return Err(owned("give_skill: no Player entity in world")),
    };
    let mut b = match backpack_of(world, player) {
        Some(b) => b,
        None => return Err(owned("give_skill: player has no Backpack component")),
    };
    let ghost b0 = b@;
    if !list_contains(&b.permanent, skill_id) {
        let ghost p0 = b.permanent@;
        let o = owned(skill_id);
        b.permanent.push(o);
        proof {
            crate::text::lemma_names_push(p0, o);
        }
    }
    if str_eq(def.subcategory.as_str(), "weapon") && b.equipped_weapon_id.is_none() {
        b.equipped_weapon_id = Some(owned(skill_id));
    }
    assert(b@ =~= granted(b0, skill_id@, def.subcategory@ == "weapon"@));
    set_backpack(world, player, b);
    Ok(())
}

/// Hit points after applying `steps` (as far as they go).
pub open spec fn health_after(steps: Seq<crate::skills::defs::EffectStep>, caster: Entity, opponent: Entity, hm: Map<Entity, Health>) -> Map<Entity, Health> {
    match steps_outcome(steps, caster, opponent, hm) {
        SkillOutcome::Applied(m) => m,
        SkillOutcome::NoHealth(m, _) => m,
        SkillOutcome::Overflow => hm,
    }
}

/// Backpack after using one charge of its first usable stack; the stack goes when empty.
pub open spec fn consume_first(b: BackpackView) -> BackpackView {
    let (id, c) = b.usable[0];
    if c - 1 == 0 {
        BackpackView { usable: b.usable.remove(0), ..b }
    } else {
        BackpackView { usable: b.usable.update(0, (id, (c - 1) as u32)), ..b }
    }
}

/// Hit points and backpacks after hotkey `digit` for player `p`: **1** uses the equipped
/// weapon (after normalising it) on `opponent`; **2** uses the first usable stack on the
/// player and spends a charge when the skill applies.
pub open spec fn hotkey_result(
    reg: SkillRegistry,
    digit: u8,
    opponent: Option<Entity>,
    p: Entity,
    hm: Map<Entity, Health>,
    bm: Map<Entity, BackpackView>,
) -> (Map<Entity, Health>, Map<Entity, BackpackView>) {
    if digit == 1 {
        if !bm.contains_key(p) {
            (hm, bm)
        } else {
            let b = bm[p];
            let eq = normalized_equipped(b, reg);
            let bm1 = bm.insert(p, BackpackView { equipped: eq, ..b });
            match eq {
                None => (hm, bm1),
                Some(id) => match reg.lookup(id) {
                    None => (hm, bm1),
                    Some(d) => if d.category != SkillCategory::Permanent {
                        (hm, bm1)
                    } else {
                        match opponent {
                            None => (hm, bm1),
                            Some(o) => (health_after(d.effects@, p, o, hm), bm1),
                        }
                    },
                },
            }
        }
    } else if digit == 2 {
        if !bm.contains_key(p) || bm[p].usable.len() == 0 || bm[p].usable[0].1 == 0 {
            (hm, bm)
        } else {
            match reg.lookup(bm[p].usable[0].0) {
                None => (hm, bm),
                Some(d) => if d.category != SkillCategory::Usable {
                    (hm, bm)
                } else {
                    match steps_outcome(d.effects@, p, p, hm) {
                        SkillOutcome::Applied(m) => (m, bm.insert(p, consume_first(bm[p]))),
                        SkillOutcome::NoHealth(m, _) => (m, bm),
                        SkillOutcome::Overflow => (hm, bm),
                    }
                },
            }
        }
    } else {
        (hm, bm)
    }
}

/// The hit-point arithmetic of hotkey `digit` for player `p` stays in `i32`.
pub open spec fn hotkey_in_range(
    reg: SkillRegistry,
    digit: u8,
    opponent: Option<Entity>,
    p: Entity,
    hm: Map<Entity, Health>,
    bm: Map<Entity, BackpackView>,
) -> bool {
    if digit == 1 {
        bm.contains_key(p) ==> match normalized_equipped(bm[p], reg) {
            Some(id) => match (reg.lookup(id), opponent) {
                (Some(d), Some(o)) => !(steps_outcome(d.effects@, p, o, hm) is Overflow),
                _ => true,
            },
            None => true,
        }
    } else if digit == 2 {
        (bm.contains_key(p) && bm[p].usable.len() > 0) ==> match reg.lookup(bm[p].usable[0].0) {
            Some(d) => !(steps_outcome(d.effects@, p, p, hm) is Overflow),
            None => true,
        }
    } else {
        true
    }
}

/// Backpack hotkeys while the backpack is open: **1** = use the equipped weapon skill on
/// `opponent` (the nearest NPC in range, if any); **2** = use the first usable skill on the
/// player and spend one charge. Without a player nothing happens.
pub fn apply_backpack_hotkey(world: &mut World, registry: &SkillRegistry, digit: u8, opponent: Option<Entity>)
    requires
        first_player(*old(world)) matches Some(p) ==> hotkey_in_range(
                *registry,
                digit,
                opponent,
                p,
                world_health(*old(world)),
                world_backpacks(*old(world)),
            ),
    ensures
        world_player_order(*final(world)) == world_player_order(*old(world)),
        no_player(*old(world)) ==> world_health(*final(world)) == world_health(*old(world))
            && world_backpacks(*final(world)) == world_backpacks(*old(world)),
        first_player(*old(world)) matches Some(p) ==> (world_health(*final(world)), world_backpacks(
                *final(world),
            )) == hotkey_result(
                *registry,
                digit,
                opponent,
                p,
                world_health(*old(world)),
                world_backpacks(*old(world)),
            ),
{
    let player = match player_entity(world) {
        Some(p) => p,
        None => return,
    };
    apply_backpack_hotkey_for(world, registry, player, digit, opponent);
}

/// The backpack hotkey `digit` for player entity `p` (see [`apply_backpack_hotkey`]).
pub fn apply_backpack_hotkey_for(
    world: &mut World,
    registry: &SkillRegistry,
    player: Entity,
    digit: u8,
    opponent: Option<Entity>,
)
    requires
        hotkey_in_range(
            *registry,
            digit,
            opponent,
            player,
            world_health(*old(world)),
            world_backpacks(*old(world)),
        ),
    ensures
        world_player_order(*final(world)) == world_player_order(*old(world)),
        (world_health(*final(world)), world_backpacks(*final(world))) == hotkey_result(
            *registry,
            digit,
            opponent,
            player,
            world_health(*old(world)),
            world_backpacks(*old(world)),
        ),
{
    let ghost hm = world_health(*world);
    let ghost bm = world_backpacks(*world);
    if digit == 1 {
        let mut b = match backpack_of(world, player) {
            Some(b) => b,
            None => return,
        };
        normalize_equipped_weapon(&mut b, registry);
        let equipped = match &b.equipped_weapon_id {
            Some(s) => Some(owned(s.as_str())),
            None => None,
        };
        set_backpack(world, player, b);
        let skill_id = match equipped {
            Some(s) => s,
            None => return,
        };
        let skill = match registry.get(skill_id.as_str()) {
            Some(s) => s,
            None => return,
        };
        if skill.category != SkillCategory::Permanent {
            return;
        }
        let opp = match opponent {
            Some(o) => o,
            None => return,
        };
        let _ = apply_skill(skill, world, player, opp);
    } else if digit == 2 {
        let b = match backpack_of(world, player) {
            Some(b) => b,
            None => return,
        };
        if b.usable.len() == 0 {
            return;
        }
        let charges = b.usable[0].charges;
        if charges == 0 {
            return;
        }
        let skill_id = owned(b.usable[0].skill_id.as_str());
        let new_charges = charges - 1;
        let skill = match registry.get(skill_id.as_str()) {
            Some(s) => s,
            None => return,
        };
        if skill.category != SkillCategory::Usable {
            return;
        }
        if apply_skill(skill, world, player, player).is_err() {
            return;
        }
        let mut b2 = match backpack_of(world, player) {
            Some(b) => b,
            None => return,
        };
        if b2.usable.len() > 0 && str_eq(b2.usable[0].skill_id.as_str(), skill_id.as_str()) {
            let ghost u0 = b2@;
            let first = b2.usable.remove(0);
            assert(first.charges == charges);
            if new_charges > 0 {
                b2.usable.insert(0, UsableSkillStack { skill_id: first.skill_id, charges: new_charges });
                assert(b2@.usable =~= u0.usable.update(0, (u0.usable[0].0, new_charges)));
            } else {
                assert(b2@.usable =~= u0.usable.remove(0));
            }
            assert(b2@ =~= consume_first(u0));
            set_backpack(world, player, b2);
        }
    }
}

} // verus!
