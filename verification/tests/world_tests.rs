use bangbang::ecs::components::{Backpack, Health, Npc, Player, UsableSkillStack};
use bangbang::ecs::world::{npc_start_health, player_start, scene_actor_id, PlayerCarryover};
use bangbang::save_game::{check_version, npc_health_entries, restore_npc_health, NpcHealthEntry, SAVE_FORMAT_VERSION};
use bangbang::scene::{SceneDef, SceneStep};
use bangbang::skills::apply::skill_fits;
use bangbang::skills::{EffectOp, EffectStep, EffectTarget, SkillCategory, SkillDef, SkillRegistry};
use bangbang::state::app::{backpack_frame, backpack_frame_fits, normalize_player_weapon};
use bangbang::state::input::{KeyCode, KeyInput};
use bangbang::state::InputState;
use hecs::{Entity, World};

fn health_of(world: &World, e: Entity) -> Option<Health> {
    world.get::<&Health>(e).ok().map(|h| *h)
}

fn player_backpack(world: &World) -> Option<Backpack> {
    world.query::<(&Player, &Backpack)>().iter().next().map(|(_, (_, b))| b.clone())
}

fn npc(id: &str) -> Npc {
    Npc { id: id.to_string(), conversation_id: id.to_string(), dialogue_line: "Howdy.".to_string() }
}

fn def(id: &str, category: SkillCategory, sub: &str, charges: Option<u32>, op: EffectOp, target: EffectTarget, amount: i32) -> SkillDef {
    SkillDef {
        id: id.to_string(),
        name: id.to_string(),
        category,
        subcategory: sub.to_string(),
        charges_default: charges,
        effects: vec![EffectStep { op, target, amount }],
    }
}

fn registry() -> SkillRegistry {
    SkillRegistry::from_defs(vec![
        (
            "sidearm".to_string(),
            def("sidearm", SkillCategory::Permanent, "weapon", None, EffectOp::DealDamage, EffectTarget::Opponent, 2),
        ),
        (
            "beer".to_string(),
            def("beer", SkillCategory::Usable, "drink", Some(3), EffectOp::Heal, EffectTarget::Caster, 3),
        ),
    ])
    .expect("registry")
}

fn press(input: &mut InputState, code: KeyCode) {
    input.apply_key(&KeyInput { code: Some(code), pressed: true, repeat: false });
}

#[test]
fn save_version_must_match() {
    assert_eq!(check_version(SAVE_FORMAT_VERSION), Ok(()));
    assert_eq!(check_version(SAVE_FORMAT_VERSION + 1), Err(SAVE_FORMAT_VERSION + 1));
    assert_eq!(check_version(0), Err(0));
}

#[test]
fn save_records_npcs_with_health_and_load_puts_it_back() {
    let mut world = World::new();
    world.spawn((npc("silas"), Health { current: 4, max: 10 }));
    world.spawn((npc("mom"), Health { current: 10, max: 10 }));
    let quiet = world.spawn((npc("jenkins"),));
    let player = world.spawn((Player, Health { current: 7, max: 10 }));

    let entries = npc_health_entries(&world);
    let got: Vec<(String, i32, i32)> = entries.iter().map(|e| (e.id.clone(), e.current, e.max)).collect();
    assert_eq!(got, vec![("silas".to_string(), 4, 10), ("mom".to_string(), 10, 10)]);

    let mut fresh = World::new();
    let silas = fresh.spawn((npc("silas"), Health { current: 10, max: 10 }));
    let jenkins = fresh.spawn((npc("jenkins"),));
    let saved = vec![
        NpcHealthEntry { id: "silas".to_string(), current: 4, max: 10 },
        NpcHealthEntry { id: "jenkins".to_string(), current: 1, max: 5 },
        NpcHealthEntry { id: "nobody".to_string(), current: 1, max: 1 },
    ];
    restore_npc_health(&mut fresh, &saved);
    assert_eq!(health_of(&fresh, silas), Some(Health { current: 4, max: 10 }));
    assert_eq!(health_of(&fresh, jenkins), None);
    assert_eq!(health_of(&world, quiet), None);
    assert_eq!(health_of(&world, player), Some(Health { current: 7, max: 10 }));
}

#[test]
fn scene_actor_comes_from_portrait_or_speaker() {
    let scene = SceneDef {
        id: "robbery".to_string(),
        steps: vec![
            SceneStep::Dialogue { speaker: "Bank Owner".into(), portrait: None, lines: vec!["Help!".into()] },
            SceneStep::SetFlag { flag: "robbed".into() },
            SceneStep::Dialogue { speaker: "Silas".into(), portrait: Some("billy".into()), lines: vec![] },
            SceneStep::Dialogue { speaker: "Old Man".into(), portrait: Some("".into()), lines: vec![] },
        ],
    };
    assert_eq!(scene_actor_id(&scene, 0), Some("bankOwner".to_string()));
    assert_eq!(scene_actor_id(&scene, 1), None);
    assert_eq!(scene_actor_id(&scene, 2), Some("billy".to_string()));
    assert_eq!(scene_actor_id(&scene, 3), Some("oldMan".to_string()));
    assert_eq!(scene_actor_id(&scene, 4), None);
}

#[test]
fn backpack_frame_fires_weapon_then_drink() {
    let registry = registry();
    let mut world = World::new();
    let player = world.spawn((
        Player,
        Health { current: 5, max: 10 },
        Backpack {
            permanent: vec!["sidearm".into()],
            usable: vec![UsableSkillStack { skill_id: "beer".into(), charges: 3 }],
            equipped_weapon_id: None,
        },
    ));
    let outlaw = world.spawn((npc("silas"), Health { current: 10, max: 10 }));

    let mut input = InputState::new();
    press(&mut input, KeyCode::Digit1);
    assert!(backpack_frame_fits(&world, &registry, &input, player, Some(outlaw)));
    backpack_frame(&mut world, &registry, &mut input, player, Some(outlaw));
    assert_eq!(input.take_skill_hotkey_digit(), None);
    assert_eq!(health_of(&world, outlaw), Some(Health { current: 8, max: 10 }));
    assert_eq!(player_backpack(&world).unwrap().equipped_weapon_id, Some("sidearm".to_string()));

    press(&mut input, KeyCode::Digit2);
    press(&mut input, KeyCode::Tab);
    assert!(backpack_frame_fits(&world, &registry, &input, player, Some(outlaw)));
    backpack_frame(&mut world, &registry, &mut input, player, Some(outlaw));
    assert_eq!(input.take_weapon_cycle_step(), None);
    assert_eq!(health_of(&world, player), Some(Health { current: 8, max: 10 }));
    let b = player_backpack(&world).unwrap();
    assert_eq!(b.usable[0].charges, 2);
    assert_eq!(b.equipped_weapon_id, Some("sidearm".to_string()));

    // Without an opponent in range the weapon does nothing.
    press(&mut input, KeyCode::Digit1);
    backpack_frame(&mut world, &registry, &mut input, player, None);
    assert_eq!(health_of(&world, outlaw), Some(Health { current: 8, max: 10 }));
}

#[test]
fn skill_fits_rejects_hit_point_overflow() {
    let mut world = World::new();
    let a = world.spawn((Health { current: 5, max: 10 },));
    let b = world.spawn((Health { current: 5, max: 10 },));
    let ok = def("x", SkillCategory::Permanent, "weapon", None, EffectOp::DealDamage, EffectTarget::Opponent, 3);
    assert!(skill_fits(&ok, &world, a, b));
    let wrap = def("y", SkillCategory::Permanent, "weapon", None, EffectOp::DealDamage, EffectTarget::Opponent, i32::MIN);
    assert!(!skill_fits(&wrap, &world, a, b));
    let big_heal = def("z", SkillCategory::Usable, "drink", Some(1), EffectOp::Heal, EffectTarget::Caster, i32::MAX);
    assert!(!skill_fits(&big_heal, &world, a, b));
}

#[test]
fn held_keys_give_a_direction() {
    let mut input = InputState::new();
    assert_eq!(input.direction_axes(), (0, 0));
    press(&mut input, KeyCode::ArrowRight);
    press(&mut input, KeyCode::KeyW);
    assert_eq!(input.direction_axes(), (1, -1));
    press(&mut input, KeyCode::KeyA);
    assert_eq!(input.direction_axes(), (0, -1));
}

#[test]
fn player_weapon_is_normalised_in_place() {
    let registry = registry();
    let mut world = World::new();
    let npc_e = world.spawn((npc("silas"), Health { current: 10, max: 10 }));
    world.spawn((
        Player,
        Backpack { permanent: vec!["sidearm".into()], usable: vec![], equipped_weapon_id: Some("beer".into()) },
    ));
    normalize_player_weapon(&mut world, &registry);
    assert_eq!(player_backpack(&world).unwrap().equipped_weapon_id, Some("sidearm".to_string()));
    assert_eq!(health_of(&world, npc_e), Some(Health { current: 10, max: 10 }));
    // Without a player nothing happens.
    let mut empty = World::new();
    normalize_player_weapon(&mut empty, &registry);
    assert_eq!(empty.len(), 0);
}

#[test]
fn player_and_npc_start_values() {
    let (b, h) = player_start(None);
    assert!(b.permanent.is_empty() && b.usable.is_empty() && b.equipped_weapon_id.is_none());
    assert_eq!((h.current, h.max), (5, 5));
    let carried = PlayerCarryover {
        backpack: Backpack { permanent: vec!["rifle".into()], usable: vec![], equipped_weapon_id: Some("rifle".into()) },
        health: Health { current: 2, max: 7 },
    };
    let (b, h) = player_start(Some(carried));
    assert_eq!(b.permanent, vec!["rifle".to_string()]);
    assert_eq!(b.equipped_weapon_id.as_deref(), Some("rifle"));
    assert_eq!((h.current, h.max), (2, 7));
    let n = npc_start_health();
    assert_eq!((n.current, n.max), (10, 10));
}
