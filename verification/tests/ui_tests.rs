use bangbang::ecs::components::{Backpack, Player, UsableSkillStack};
use bangbang::skills::{EffectOp, EffectStep, EffectTarget, SkillCategory, SkillDef, SkillRegistry};
use bangbang::software::{draw_label, draw_panel, draw_text, fill_rect, glyph};
use bangbang::ui::backpack::panel_lines_for;
use bangbang::ui::backpack_panel_lines;
use hecs::World;

fn registry() -> SkillRegistry {
    let step = EffectStep { op: EffectOp::DealDamage, target: EffectTarget::Opponent, amount: 1 };
    let sidearm = SkillDef {
        id: "sidearm".into(),
        name: "Sidearm".into(),
        category: SkillCategory::Permanent,
        subcategory: "weapon".into(),
        charges_default: None,
        effects: vec![step],
    };
    let beer = SkillDef {
        id: "beer".into(),
        name: "Beer".into(),
        category: SkillCategory::Usable,
        subcategory: "drink".into(),
        charges_default: Some(3),
        effects: vec![step],
    };
    let boots = SkillDef {
        id: "boots".into(),
        name: "Lucky Boots".into(),
        category: SkillCategory::Permanent,
        subcategory: "passive".into(),
        charges_default: None,
        effects: vec![step],
    };
    SkillRegistry::from_defs(vec![("sidearm".into(), sidearm), ("beer".into(), beer), ("boots".into(), boots)]).unwrap()
}

#[test]
fn backpack_panel_sections_and_labels() {
    let backpack = Backpack {
        permanent: vec!["boots".into(), "sidearm".into(), "mystery".into()],
        usable: vec![
            UsableSkillStack { skill_id: "beer".into(), charges: 3 },
            UsableSkillStack { skill_id: "whiskey".into(), charges: 12 },
        ],
        equipped_weapon_id: Some("sidearm".into()),
    };
    let lines = panel_lines_for(&backpack, &registry());
    let usable: Vec<(&str, &str)> = lines.usable.iter().map(|s| (s.skill_id.as_str(), s.label.as_str())).collect();
    assert_eq!(usable, vec![("beer", "Beer (3)"), ("whiskey", "whiskey (12)")]);
    assert_eq!(lines.weapons.len(), 1);
    assert_eq!(lines.weapons[0].label, "Sidearm [equipped]");
    assert!(lines.weapons[0].is_equipped);
    let passives: Vec<&str> = lines.passives.iter().map(|s| s.label.as_str()).collect();
    assert_eq!(passives, vec!["Lucky Boots", "mystery"]);
}

#[test]
fn backpack_panel_without_player_is_empty() {
    let world = World::new();
    let lines = backpack_panel_lines(&world, &registry());
    assert!(lines.usable.is_empty() && lines.weapons.is_empty() && lines.passives.is_empty());

    let mut world = World::new();
    world.spawn((Player, Backpack { permanent: vec!["sidearm".into()], usable: vec![], equipped_weapon_id: None }));
    let lines = backpack_panel_lines(&world, &registry());
    assert_eq!(lines.weapons[0].label, "Sidearm");
    assert!(!lines.weapons[0].is_equipped);
}

#[test]
fn fill_rect_clips_to_the_buffer() {
    let mut buf = vec![0u32; 4 * 3];
    fill_rect(&mut buf, 4, 3, -2, 1, 2, 10, 7);
    assert_eq!(buf, vec![0, 0, 0, 0, 7, 7, 0, 0, 7, 7, 0, 0]);
    let mut buf = vec![1u32; 4];
    fill_rect(&mut buf, 2, 2, 5, 5, 9, 9, 7);
    assert_eq!(buf, vec![1, 1, 1, 1]);
}

#[test]
fn panel_draws_fill_then_top_border() {
    let mut buf = vec![0u32; 3 * 3];
    draw_panel(&mut buf, 3, 3, 0, 0, 3, 3, 5, 9, 1);
    assert_eq!(buf, vec![9, 9, 9, 5, 5, 5, 5, 5, 5]);
    let mut buf = vec![0u32; 3 * 3];
    draw_panel(&mut buf, 3, 3, 0, 0, 3, 3, 5, 9, 0);
    assert_eq!(buf, vec![5; 9]);
}

#[test]
fn glyph_table() {
    assert_eq!(glyph(b'!'), [0b00100, 0b00100, 0b00100, 0b00100, 0b00000, 0b00100, 0b00100]);
    assert_eq!(glyph(b'z'), [0; 7]);
}

#[test]
fn text_draws_glyph_bits_six_pixels_apart() {
    let w = 12u32;
    let h = 7u32;
    let mut buf = vec![0u32; (w * h) as usize];
    draw_text(&mut buf, w, h, 0, 0, "!!", 1);
    for row in 0..7usize {
        for col in 0..12usize {
            let lit = (col == 2 || col == 8) && row != 4;
            assert_eq!(buf[row * 12 + col] == 1, lit, "pixel ({col}, {row})");
        }
    }
    let mut clipped = vec![0u32; (w * h) as usize];
    draw_label(&mut clipped, w, h, -2, -3, "!", 4);
    // Column 2 of the glyph lands on x = 0; rows 3.. of it land on y = 0..
    assert_eq!(clipped[0], 4);
    assert_eq!(clipped[12], 0);
    assert_eq!(clipped[24], 4);
}

#[test]
fn backpack_panel_shows_the_first_player_with_a_backpack() {
    let mut world = World::new();
    world.spawn((Player,));
    world.spawn((Player, Backpack { permanent: vec!["sidearm".into()], usable: vec![], equipped_weapon_id: None }));
    world.spawn((Player, Backpack { permanent: vec![], usable: vec![], equipped_weapon_id: None }));
    let lines = backpack_panel_lines(&world, &registry());
    assert_eq!(lines.weapons.len(), 1);
    assert_eq!(lines.weapons[0].label, "Sidearm");
}
