use bangbang::ecs::components::{Backpack, Health, Player, UsableSkillStack};
use bangbang::ecs::world::{take_player_carryover, PlayerCarryover};
use bangbang::skills::{
    apply_backpack_hotkey, apply_skill, cycle_equipped_weapon, cycle_equipped_weapon_in_backpack,
    give_skill, is_weapon_skill, normalize_equipped_weapon, passive_ids_in_order,
    seed_demo_backpack, weapon_ids_in_order, EffectOp, EffectStep, EffectTarget, SkillCategory,
    SkillDef, SkillRegistry,
};
use hecs::World;

fn def(
    id: &str,
    category: SkillCategory,
    subcategory: &str,
    charges: Option<u32>,
    effects: Vec<EffectStep>,
) -> SkillDef {
    SkillDef {
        id: id.to_string(),
        name: id.to_string(),
        category,
        subcategory: subcategory.to_string(),
        charges_default: charges,
        effects,
    }
}

/// The two builtin skills: a sidearm dealing 2 damage to the opponent, and beer healing the
/// caster by 3 with 3 charges.
fn registry() -> SkillRegistry {
    let sidearm = def(
        "sidearm",
        SkillCategory::Permanent,
        "weapon",
        None,
        vec![EffectStep { op: EffectOp::DealDamage, target: EffectTarget::Opponent, amount: 2 }],
    );
    let beer = def(
        "beer",
        SkillCategory::Usable,
        "drink",
        Some(3),
        vec![EffectStep { op: EffectOp::Heal, target: EffectTarget::Caster, amount: 3 }],
    );
    let rifle = def(
        "rifle",
        SkillCategory::Permanent,
        "weapon",
        None,
        vec![EffectStep { op: EffectOp::DealDamage, target: EffectTarget::Opponent, amount: 4 }],
    );
    SkillRegistry::from_defs(vec![
        ("sidearm".to_string(), sidearm),
        ("beer".to_string(), beer),
        ("rifle".to_string(), rifle),
    ])
    .expect("registry")
}

#[test]
fn weapon_and_passive_partition_by_subcategory() {
    let registry = registry();
    let backpack = Backpack {
        permanent: vec!["sidearm".into(), "beer".into()],
        usable: vec![],
        equipped_weapon_id: Some("sidearm".into()),
    };
    assert_eq!(weapon_ids_in_order(&backpack, &registry), vec!["sidearm".to_string()]);
    assert_eq!(passive_ids_in_order(&backpack, &registry), vec!["beer".to_string()]);
}

#[test]
fn normalize_equipped_snaps_to_first_weapon() {
    let registry = registry();
    let mut backpack = Backpack {
        permanent: vec!["sidearm".into()],
        usable: vec![],
        equipped_weapon_id: Some("not_a_weapon_id".into()),
    };
    normalize_equipped_weapon(&mut backpack, &registry);
    assert_eq!(backpack.equipped_weapon_id.as_deref(), Some("sidearm"));
}

#[test]
fn cycle_with_single_weapon_no_ops() {
    let registry = registry();
    let mut backpack = Backpack {
        permanent: vec!["sidearm".into()],
        usable: vec![],
        equipped_weapon_id: Some("sidearm".into()),
    };
    cycle_equipped_weapon_in_backpack(&mut backpack, &registry, 1);
    assert_eq!(backpack.equipped_weapon_id.as_deref(), Some("sidearm"));
}

#[test]
fn deal_damage_and_heal_round_trip() {
    let registry = registry();
    let weapon = registry.get("sidearm").expect("sidearm");
    let beer = registry.get("beer").expect("beer");

    let mut world = World::new();
    let a = world.spawn((Health { current: 10, max: 10 },));
    let b = world.spawn((Health { current: 10, max: 10 },));

    apply_skill(weapon, &mut world, a, b).expect("weapon");
    assert_eq!(*world.get::<&Health>(b).unwrap(), Health { current: 8, max: 10 });

    *world.get::<&mut Health>(a).unwrap() = Health { current: 5, max: 10 };
    apply_skill(beer, &mut world, a, a).expect("beer");
    assert_eq!(*world.get::<&Health>(a).unwrap(), Health { current: 8, max: 10 });
}

#[test]
fn damage_floors_at_zero_and_heal_caps_at_max() {
    let registry = registry();
    let mut world = World::new();
    let a = world.spawn((Health { current: 9, max: 10 },));
    let b = world.spawn((Health { current: 1, max: 10 },));
    apply_skill(registry.get("rifle").unwrap(), &mut world, a, b).unwrap();
    assert_eq!(*world.get::<&Health>(b).unwrap(), Health { current: 0, max: 10 });
    apply_skill(registry.get("beer").unwrap(), &mut world, a, b).unwrap();
    assert_eq!(*world.get::<&Health>(a).unwrap(), Health { current: 10, max: 10 });
}

#[test]
fn apply_skill_reports_a_target_without_health() {
    let registry = registry();
    let mut world = World::new();
    let a = world.spawn((Health { current: 5, max: 10 },));
    let b = world.spawn((Player,));
    let err = apply_skill(registry.get("sidearm").unwrap(), &mut world, a, b).unwrap_err();
    assert_eq!(err, format!("skills: entity {:?} has no Health", b));
}

#[test]
fn cycling_wraps_in_both_directions() {
    let registry = registry();
    let mut backpack = Backpack {
        permanent: vec!["sidearm".into(), "beer".into(), "rifle".into()],
        usable: vec![],
        equipped_weapon_id: Some("sidearm".into()),
    };
    cycle_equipped_weapon_in_backpack(&mut backpack, &registry, 1);
    assert_eq!(backpack.equipped_weapon_id.as_deref(), Some("rifle"));
    cycle_equipped_weapon_in_backpack(&mut backpack, &registry, 1);
    assert_eq!(backpack.equipped_weapon_id.as_deref(), Some("sidearm"));
    cycle_equipped_weapon_in_backpack(&mut backpack, &registry, -1);
    assert_eq!(backpack.equipped_weapon_id.as_deref(), Some("rifle"));
    assert!(is_weapon_skill(&registry, "rifle"));
    assert!(!is_weapon_skill(&registry, "beer"));
    assert!(!is_weapon_skill(&registry, "unknown"));
}

#[test]
fn registry_later_definitions_win() {
    let a = def("x", SkillCategory::Permanent, "weapon", None, vec![]);
    let mut b = def("x", SkillCategory::Permanent, "weapon", None, vec![]);
    b.name = "second".to_string();
    let reg = SkillRegistry::from_defs(vec![("x".to_string(), a), ("x".to_string(), b)]).unwrap();
    assert_eq!(reg.len(), 1);
    assert_eq!(reg.get("x").unwrap().name, "second");
    assert!(SkillRegistry::from_defs(Vec::new()).is_none());
    let mut ids = registry().ids();
    ids.sort();
    assert_eq!(ids, vec!["beer", "rifle", "sidearm"]);
}

#[test]
fn skill_definition_rules() {
    let ok = def(
        "beer",
        SkillCategory::Usable,
        "",
        Some(2),
        vec![EffectStep { op: EffectOp::Heal, target: EffectTarget::Caster, amount: 1 }],
    );
    assert!(ok.validate("beer", "assets/skills/beer.json").is_ok());
    assert_eq!(
        ok.validate("wine", "p").unwrap_err(),
        "skills: file p has id \"beer\", expected \"wine\""
    );
    let none = def("n", SkillCategory::Permanent, "", None, vec![]);
    assert_eq!(none.validate("n", "p").unwrap_err(), "skills: n has no effects");
    let neg = def(
        "g",
        SkillCategory::Permanent,
        "",
        None,
        vec![EffectStep { op: EffectOp::DealDamage, target: EffectTarget::Opponent, amount: -1 }],
    );
    assert_eq!(neg.validate("g", "p").unwrap_err(), "skills: g effect DealDamage has negative amount");
    let empty = def(
        "u",
        SkillCategory::Usable,
        "",
        Some(0),
        vec![EffectStep { op: EffectOp::Heal, target: EffectTarget::Caster, amount: 1 }],
    );
    assert_eq!(empty.validate("u", "p").unwrap_err(), "skills: usable u must set charges_default > 0");
}

fn player_world(backpack: Backpack, health: Health) -> (World, hecs::Entity) {
    let mut world = World::new();
    let p = world.spawn((Player, backpack, health));
    (world, p)
}

#[test]
fn seed_demo_backpack_grants_sidearm_and_beer() {
    let registry = registry();
    let (mut world, p) = player_world(Backpack::new(), Health { current: 5, max: 5 });
    seed_demo_backpack(&mut world, &registry).unwrap();
    let b = world.get::<&Backpack>(p).unwrap();
    assert_eq!(b.permanent, vec!["sidearm".to_string()]);
    assert_eq!(b.usable.len(), 1);
    assert_eq!((b.usable[0].skill_id.as_str(), b.usable[0].charges), ("beer", 3));
    assert_eq!(b.equipped_weapon_id.as_deref(), Some("sidearm"));

    let mut empty = World::new();
    assert_eq!(seed_demo_backpack(&mut empty, &registry).unwrap_err(), "skills: no Player entity");
}

#[test]
fn give_skill_is_idempotent_and_equips_first_weapon() {
    let registry = registry();
    let (mut world, p) = player_world(Backpack::new(), Health { current: 5, max: 5 });
    give_skill(&mut world, &registry, "rifle").unwrap();
    give_skill(&mut world, &registry, "rifle").unwrap();
    give_skill(&mut world, &registry, "sidearm").unwrap();
    {
        let b = world.get::<&Backpack>(p).unwrap();
        assert_eq!(b.permanent, vec!["rifle".to_string(), "sidearm".to_string()]);
        assert_eq!(b.equipped_weapon_id.as_deref(), Some("rifle"));
    }
    assert_eq!(
        give_skill(&mut world, &registry, "lasso").unwrap_err(),
        "give_skill: unknown skill 'lasso'"
    );
}

#[test]
fn hotkeys_use_weapon_and_spend_a_charge() {
    let registry = registry();
    let backpack = Backpack {
        permanent: vec!["sidearm".into()],
        usable: vec![UsableSkillStack { skill_id: "beer".into(), charges: 1 }],
        equipped_weapon_id: None,
    };
    let (mut world, p) = player_world(backpack, Health { current: 2, max: 5 });
    let npc = world.spawn((Health { current: 10, max: 10 },));

    apply_backpack_hotkey(&mut world, &registry, 1, Some(npc));
    assert_eq!(*world.get::<&Health>(npc).unwrap(), Health { current: 8, max: 10 });
    assert_eq!(world.get::<&Backpack>(p).unwrap().equipped_weapon_id.as_deref(), Some("sidearm"));

    apply_backpack_hotkey(&mut world, &registry, 2, Some(npc));
    assert_eq!(*world.get::<&Health>(p).unwrap(), Health { current: 5, max: 5 });
    // The last charge is spent: the stack is gone.
    assert!(world.get::<&Backpack>(p).unwrap().usable.is_empty());

    // Nothing left to drink.
    apply_backpack_hotkey(&mut world, &registry, 2, Some(npc));
    assert_eq!(*world.get::<&Health>(p).unwrap(), Health { current: 5, max: 5 });
}

#[test]
fn cycle_on_the_player_and_carryover() {
    let registry = registry();
    let backpack = Backpack {
        permanent: vec!["sidearm".into(), "rifle".into()],
        usable: vec![],
        equipped_weapon_id: Some("sidearm".into()),
    };
    let (mut world, _p) = player_world(backpack, Health { current: 4, max: 5 });
    cycle_equipped_weapon(&mut world, &registry, 1);
    let c: PlayerCarryover = take_player_carryover(&mut world).expect("carryover");
    assert_eq!(c.backpack.equipped_weapon_id.as_deref(), Some("rifle"));
    assert_eq!(c.health, Health { current: 4, max: 5 });

    let mut bare = World::new();
    bare.spawn((Player,));
    assert!(take_player_carryover(&mut bare).is_none());
}

#[test]
fn cycling_forward_then_back_restores_the_weapon() {
    let registry = registry();
    let mut backpack = Backpack {
        permanent: vec!["sidearm".into(), "beer".into(), "rifle".into()],
        usable: vec![],
        equipped_weapon_id: Some("rifle".into()),
    };
    cycle_equipped_weapon_in_backpack(&mut backpack, &registry, 1);
    assert_eq!(backpack.equipped_weapon_id.as_deref(), Some("sidearm"));
    cycle_equipped_weapon_in_backpack(&mut backpack, &registry, -1);
    assert_eq!(backpack.equipped_weapon_id.as_deref(), Some("rifle"));
}

#[test]
fn normalizing_twice_is_normalizing_once() {
    let registry = registry();
    let mut backpack = Backpack {
        permanent: vec!["beer".into(), "rifle".into(), "sidearm".into()],
        usable: vec![],
        equipped_weapon_id: Some("beer".into()),
    };
    normalize_equipped_weapon(&mut backpack, &registry);
    let once = backpack.equipped_weapon_id.clone();
    assert_eq!(once.as_deref(), Some("rifle"));
    normalize_equipped_weapon(&mut backpack, &registry);
    assert_eq!(backpack.equipped_weapon_id, once);
}

#[test]
fn cycle_below_two_weapons_leaves_the_backpack_alone() {
    let registry = registry();
    let mut one_unequipped = Backpack {
        permanent: vec!["sidearm".into()],
        usable: vec![],
        equipped_weapon_id: None,
    };
    cycle_equipped_weapon_in_backpack(&mut one_unequipped, &registry, 1);
    assert_eq!(one_unequipped.equipped_weapon_id, None);

    let mut none_with_stale_id = Backpack {
        permanent: vec!["beer".into()],
        usable: vec![],
        equipped_weapon_id: Some("gone".into()),
    };
    cycle_equipped_weapon_in_backpack(&mut none_with_stale_id, &registry, -1);
    assert_eq!(none_with_stale_id.equipped_weapon_id.as_deref(), Some("gone"));
    assert_eq!(none_with_stale_id.permanent, vec!["beer".to_string()]);
}

#[test]
fn give_skill_acts_on_the_first_player_only() {
    let registry = registry();
    let mut world = World::new();
    let first = world.spawn((Player, Backpack::new(), Health { current: 5, max: 5 }));
    let second = world.spawn((Player, Backpack::new(), Health { current: 5, max: 5 }));
    give_skill(&mut world, &registry, "rifle").unwrap();
    give_skill(&mut world, &registry, "rifle").unwrap();
    assert_eq!(world.get::<&Backpack>(first).unwrap().permanent, vec!["rifle".to_string()]);
    assert_eq!(world.get::<&Backpack>(first).unwrap().equipped_weapon_id.as_deref(), Some("rifle"));
    assert!(world.get::<&Backpack>(second).unwrap().permanent.is_empty());
    assert_eq!(world.get::<&Backpack>(second).unwrap().equipped_weapon_id, None);
}

#[test]
fn give_skill_fails_when_the_first_player_has_no_backpack() {
    let registry = registry();
    let mut world = World::new();
    world.spawn((Player, Health { current: 5, max: 5 }));
    let later = world.spawn((Player, Backpack::new(), Health { current: 5, max: 5 }));
    assert_eq!(
        give_skill(&mut world, &registry, "rifle").unwrap_err(),
        "give_skill: player has no Backpack component"
    );
    assert!(world.get::<&Backpack>(later).unwrap().permanent.is_empty());

    let mut empty = World::new();
    assert_eq!(
        give_skill(&mut empty, &registry, "rifle").unwrap_err(),
        "give_skill: no Player entity in world"
    );
}

#[test]
fn weapons_and_passives_split_the_permanent_skills_in_order() {
    let registry = registry();
    let backpack = Backpack {
        permanent: vec!["beer".into(), "rifle".into(), "boots".into(), "sidearm".into()],
        usable: vec![],
        equipped_weapon_id: None,
    };
    let w = weapon_ids_in_order(&backpack, &registry);
    let p = passive_ids_in_order(&backpack, &registry);
    assert_eq!(w, vec!["rifle".to_string(), "sidearm".to_string()]);
    assert_eq!(p, vec!["beer".to_string(), "boots".to_string()]);
    assert_eq!(w.len() + p.len(), backpack.permanent.len());
}

#[test]
fn cycling_moves_from_the_equipped_position() {
    let registry = registry();
    let mut backpack = Backpack {
        permanent: vec!["sidearm".into(), "beer".into(), "rifle".into()],
        usable: vec![],
        equipped_weapon_id: Some("rifle".into()),
    };
    cycle_equipped_weapon_in_backpack(&mut backpack, &registry, 1);
    assert_eq!(backpack.equipped_weapon_id.as_deref(), Some("sidearm"));
    cycle_equipped_weapon_in_backpack(&mut backpack, &registry, -1);
    assert_eq!(backpack.equipped_weapon_id.as_deref(), Some("rifle"));
    cycle_equipped_weapon_in_backpack(&mut backpack, &registry, -1);
    assert_eq!(backpack.equipped_weapon_id.as_deref(), Some("sidearm"));
}
