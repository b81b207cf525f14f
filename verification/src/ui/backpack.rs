//! # Backpack panel model
//!
//! The three sections of the backpack panel, built from the player's backpack and the skill
//! registry: **usable** skills with their charges (`Beer (3)`), **weapons** (permanent skills
//! of subcategory `weapon`) with the equipped one marked, and **passives** (the other
//! permanent skills). A skill missing from the registry shows its id.

use vstd::prelude::*;

use hecs::World;

use crate::ecs::components::{Backpack, BackpackView};
use crate::ecs::world::{first_with_backpack, player_backpack, world_backpacks, world_player_order};
use crate::skills::backpack_view::{passive_ids_in_order, passives_of, weapon_ids_in_order, weapons_of};
use crate::skills::registry::SkillRegistry;
use crate::text::{concat, decimal_view, owned, str_eq, usize_text};

verus! {

/// Slot of the panel: the skill and the text shown for it.
#[derive(Clone, Debug)]
pub struct BackpackSlot {
    pub skill_id: String,
    pub label: String,
}

/// Weapon slot; also tells whether this weapon is equipped.
#[derive(Clone, Debug)]
pub struct BackpackWeaponSlot {
    pub skill_id: String,
    pub label: String,
    pub is_equipped: bool,
}

/// The lines of the three sections.
#[derive(Clone, Debug)]
pub struct BackpackPanelLines {
    pub usable: Vec<BackpackSlot>,
    pub weapons: Vec<BackpackWeaponSlot>,
    pub passives: Vec<BackpackSlot>,
}

/// Skill id and label of a slot.
pub open spec fn slot_view(s: BackpackSlot) -> (Seq<char>, Seq<char>) {
    (s.skill_id@, s.label@)
}

/// Skill id, label and equipped mark of a weapon slot.
pub open spec fn weapon_slot_view(s: BackpackWeaponSlot) -> (Seq<char>, Seq<char>, bool) {
    (s.skill_id@, s.label@, s.is_equipped)
}

/// The display name of skill `id`: its registered name, else the id itself.
pub open spec fn skill_name(reg: SkillRegistry, id: Seq<char>) -> Seq<char> {
    match reg.lookup(id) {
        Some(d) => d.name@,
        None => id,
    }
}

/// Usable slot text: `{name} ({charges})`.
pub open spec fn usable_label(reg: SkillRegistry, id: Seq<char>, charges: u32) -> Seq<char> {
    skill_name(reg, id) + " ("@ + decimal_view(charges as nat) + ")"@
}

/// Weapon slot text: the name, with ` [equipped]` after it for the equipped weapon.
pub open spec fn weapon_label(reg: SkillRegistry, id: Seq<char>, equipped: Option<Seq<char>>) -> Seq<char> {
    if equipped == Some(id) {
        skill_name(reg, id) + " [equipped]"@
    } else {
        skill_name(reg, id)
    }
}

/// The usable section for backpack `b`.
pub open spec fn usable_lines(b: BackpackView, reg: SkillRegistry) -> Seq<(Seq<char>, Seq<char>)> {
    Seq::new(
        b.usable.len(),
        |i: int| (b.usable[i].0, usable_label(reg, b.usable[i].0, b.usable[i].1)),
    )
}

/// The weapons section for backpack `b`.
pub open spec fn weapon_lines(b: BackpackView, reg: SkillRegistry) -> Seq<(Seq<char>, Seq<char>, bool)> {
    let ws = weapons_of(b, reg);
    Seq::new(
        ws.len(),
        |i: int| (ws[i], weapon_label(reg, ws[i], b.equipped), b.equipped == Some(ws[i])),
    )
}

/// The passives section for backpack `b`.
pub open spec fn passive_lines(b: BackpackView, reg: SkillRegistry) -> Seq<(Seq<char>, Seq<char>)> {
    let ps = passives_of(b, reg);
    Seq::new(ps.len(), |i: int| (ps[i], skill_name(reg, ps[i])))
}

/// Skill ids and labels of slots.
pub open spec fn slots_view(v: Seq<BackpackSlot>) -> Seq<(Seq<char>, Seq<char>)> {
    v.map_values(|s: BackpackSlot| slot_view(s))
}

/// Skill ids, labels and equipped marks of weapon slots.
pub open spec fn weapon_slots_view(v: Seq<BackpackWeaponSlot>) -> Seq<(Seq<char>, Seq<char>, bool)> {
    v.map_values(|s: BackpackWeaponSlot| weapon_slot_view(s))
}

/// Whether `r` shows backpack `b`.
pub open spec fn shows(r: BackpackPanelLines, b: BackpackView, reg: SkillRegistry) -> bool {
    &&& slots_view(r.usable@) == usable_lines(b, reg)
    &&& weapon_slots_view(r.weapons@) == weapon_lines(b, reg)
    &&& slots_view(r.passives@) == passive_lines(b, reg)
}

proof fn lemma_slots_push(v: Seq<BackpackSlot>, x: BackpackSlot)
    ensures
        slots_view(v.push(x)) == slots_view(v).push(slot_view(x)),
{
    assert(slots_view(v.push(x)) =~= slots_view(v).push(slot_view(x)));
}

proof fn lemma_weapon_slots_push(v: Seq<BackpackWeaponSlot>, x: BackpackWeaponSlot)
    ensures
        weapon_slots_view(v.push(x)) == weapon_slots_view(v).push(weapon_slot_view(x)),
{
    assert(weapon_slots_view(v.push(x)) =~= weapon_slots_view(v).push(weapon_slot_view(x)));
}

/// The display name of skill `id`.
fn name_of(registry: &SkillRegistry, id: &str) -> (r: String)
    ensures
        r@ == skill_name(*registry, id@),
{
    match registry.get(id) {
        Some(d) => owned(d.name.as_str()),
        None => owned(id),
    }
}

/// The panel lines for backpack `backpack`.
pub fn panel_lines_for(backpack: &Backpack, registry: &SkillRegistry) -> (r: BackpackPanelLines)
    ensures
        shows(r, backpack@, *registry),
{
    let ghost b = backpack@;
    let ghost reg = *registry;
    let mut usable: Vec<BackpackSlot> = Vec::new();
    let mut i: usize = 0;
    while i < backpack.usable.len()
        invariant
            i <= backpack.usable@.len(),
            b == backpack@,
            reg == *registry,
            slots_view(usable@) == usable_lines(b, reg).take(
                i as int,
            ),
        decreases backpack.usable@.len() - i,
    {
        let s = &backpack.usable[i];
        assert(b.usable[i as int] == (s.skill_id@, s.charges));
        let name = name_of(registry, s.skill_id.as_str());
        let a = concat(name.as_str(), " (");
        let n = usize_text(s.charges as usize);
        let a2 = concat(a.as_str(), n.as_str());
        let label = concat(a2.as_str(), ")");
        let slot = BackpackSlot { skill_id: owned(s.skill_id.as_str()), label };
        assert(slot_view(slot) == usable_lines(b, reg)[i as int]);
        let ghost before = usable@;
        usable.push(slot);
        assert(usable@ == before.push(slot));
        proof {
            lemma_slots_push(before, slot);
        }
        assert(slots_view(usable@) =~= usable_lines(b, reg).take(
            i + 1,
        ));
        i = i + 1;
    }
    assert(usable_lines(b, reg).take(b.usable.len() as int) =~= usable_lines(b, reg));

    let weapon_ids = weapon_ids_in_order(backpack, registry);
    let ghost ws = weapons_of(b, reg);
    let mut weapons: Vec<BackpackWeaponSlot> = Vec::new();
    let mut j: usize = 0;
    while j < weapon_ids.len()
        invariant
            j <= weapon_ids@.len(),
            b == backpack@,
            reg == *registry,
            ws == weapons_of(b, reg),
            crate::text::names(weapon_ids@) == ws,
            weapon_slots_view(weapons@) == weapon_lines(
                b,
                reg,
            ).take(j as int),
        decreases weapon_ids@.len() - j,
    {
        let id = weapon_ids[j].as_str();
        assert(ws[j as int] == id@);
        let name = name_of(registry, id);
        let is_equipped = match &backpack.equipped_weapon_id {
            Some(e) => str_eq(e.as_str(), id),
            None => false,
        };
        let label = if is_equipped {
            concat(name.as_str(), " [equipped]")
        } else {
            name
        };
        let slot = BackpackWeaponSlot { skill_id: owned(id), label, is_equipped };
        assert(weapon_slot_view(slot) == weapon_lines(b, reg)[j as int]);
        let ghost before = weapons@;
        weapons.push(slot);
        assert(weapons@ == before.push(slot));
        proof {
            lemma_weapon_slots_push(before, slot);
        }
        assert(weapon_slots_view(weapons@)
            =~= weapon_lines(b, reg).take(j + 1));
        j = j + 1;
    }
    assert(weapon_lines(b, reg).take(ws.len() as int) =~= weapon_lines(b, reg));

    let passive_ids = passive_ids_in_order(backpack, registry);
    let ghost ps = passives_of(b, reg);
    let mut passives: Vec<BackpackSlot> = Vec::new();
    let mut k: usize = 0;
    while k < passive_ids.len()
        invariant
            k <= passive_ids@.len(),
            b == backpack@,
            reg == *registry,
            ps == passives_of(b, reg),
            crate::text::names(passive_ids@) == ps,
            slots_view(passives@) == passive_lines(b, reg).take(
                k as int,
            ),
        decreases passive_ids@.len() - k,
    {
        let id = passive_ids[k].as_str();
        assert(ps[k as int] == id@);
        let label = name_of(registry, id);
        let slot = BackpackSlot { skill_id: owned(id), label };
        assert(slot_view(slot) == passive_lines(b, reg)[k as int]);
        let ghost before = passives@;
        passives.push(slot);
        assert(passives@ == before.push(slot));
        proof {
            lemma_slots_push(before, slot);
        }
        assert(slots_view(passives@) =~= passive_lines(b, reg).take(
            k + 1,
        ));
        k = k + 1;
    }
    assert(passive_lines(b, reg).take(ps.len() as int) =~= passive_lines(b, reg));
    BackpackPanelLines { usable, weapons, passives }
}

/// The panel lines for the player's backpack (the first entity with both `Player` and
/// `Backpack`); three empty sections when no player has a backpack.
pub fn backpack_panel_lines(world: &World, registry: &SkillRegistry) -> (r: BackpackPanelLines)
    ensures
        match first_with_backpack(world_player_order(*world), world_backpacks(*world)) {
            None => r.usable@.len() == 0 && r.weapons@.len() == 0 && r.passives@.len() == 0,
            Some(e) => shows(r, world_backpacks(*world)[e], *registry),
        },
{
    match player_backpack(world) {
        Some(b) => panel_lines_for(&b, registry),
        None => BackpackPanelLines { usable: Vec::new(), weapons: Vec::new(), passives: Vec::new() },
    }
}

} // verus!
