use bangbang::config::GameConfig;
use bangbang::dialogue::{Conversation, ConversationCache, DialogueCondition};
use bangbang::ecs::world::speaker_to_asset_id;
use bangbang::scene::{SceneCache, SceneDef, SceneStep};
use bangbang::state::app::{open_dialogue, AppState};
use bangbang::state::input::{KeyCode, KeyInput};
use bangbang::state::map_transition::{decide_door, DoorDecision, DoorRule};
use bangbang::state::overworld::NpcInteraction;
use bangbang::state::{InputState, StoryState, WorldState};

#[test]
fn quest_lifecycle_and_flags() {
    let mut w = WorldState::new();
    assert!(w.is_neutral());
    w.start_quest("find_dog");
    assert!(w.quest_active("find_dog"));
    w.complete_quest("find_dog");
    assert!(!w.quest_active("find_dog"));
    assert!(w.quest_complete("find_dog"));
    // A completed quest does not start again.
    w.start_quest("find_dog");
    assert!(!w.quest_active("find_dog"));
    w.set_flag("a");
    w.set_flag("a");
    assert!(w.has_flag("a"));
    w.choose_path("outlaw");
    assert_eq!(w.path(), Some("outlaw"));
}

#[test]
fn snapshot_round_trip() {
    let mut w = WorldState::new();
    w.set_flag("test_flag");
    w.start_quest("q1");
    w.start_quest("q2");
    w.complete_quest("q2");
    w.choose_path("lawman");
    let snap = w.to_snapshot();
    let mut w2 = WorldState::new();
    w2.set_flag("other");
    w2.restore_from_snapshot(snap);
    assert!(w2.has_flag("test_flag"));
    assert!(!w2.has_flag("other"));
    assert!(w2.quest_active("q1"));
    assert!(w2.quest_complete("q2"));
    assert_eq!(w2.path(), Some("lawman"));
}

#[test]
fn story_state_path_and_flags() {
    let mut s = StoryState::new();
    assert!(s.is_neutral());
    s.choose_path("gunslinger");
    s.set_flag("met_sheriff");
    assert_eq!(s.path(), Some("gunslinger"));
    assert!(s.has_flag("met_sheriff"));
    assert!(!s.has_flag("met_mom"));
}

fn key(code: KeyCode, pressed: bool, repeat: bool) -> KeyInput {
    KeyInput { code: Some(code), pressed, repeat }
}

#[test]
fn input_keys_and_pending_actions() {
    let mut input = InputState::new();
    input.apply_key(&key(KeyCode::KeyW, true, false));
    input.apply_key(&key(KeyCode::ArrowRight, true, false));
    assert!(input.up && input.right && !input.down && !input.left);
    input.apply_key(&key(KeyCode::KeyW, false, false));
    assert!(!input.up);

    input.apply_key(&key(KeyCode::Enter, true, false));
    input.apply_key(&key(KeyCode::Enter, false, false));
    assert!(input.confirm_pressed);
    input.apply_key(&key(KeyCode::KeyB, true, false));
    assert!(input.backpack_pressed);

    input.apply_key(&key(KeyCode::Digit7, true, true));
    assert_eq!(input.take_skill_hotkey_digit(), None);
    input.apply_key(&key(KeyCode::Digit7, true, false));
    assert_eq!(input.take_skill_hotkey_digit(), Some(7));
    assert_eq!(input.take_skill_hotkey_digit(), None);

    input.apply_key_with_modifiers(&key(KeyCode::Tab, true, false), true);
    assert_eq!(input.take_weapon_cycle_step(), Some(-1));
    input.apply_key(&key(KeyCode::Tab, true, false));
    assert_eq!(input.take_weapon_cycle_step(), Some(1));

    input.apply_key(&KeyInput { code: None, pressed: true, repeat: false });
    assert!(input.right);
}

fn door(confirm: bool, require: Option<&str>, deny: Option<&str>) -> DoorRule {
    DoorRule {
        to_map: "dustfall.junction".to_string(),
        require_confirm: confirm,
        require_state: require.map(|s| s.to_string()),
        deny_message: deny.map(|s| s.to_string()),
        prop: None,
    }
}

#[test]
fn walk_through_door_triggers_once_on_entering() {
    let doors = vec![door(false, None, None)];
    let ws = WorldState::new();
    let mut input = InputState::new();
    let mut prev = None;
    assert!(matches!(decide_door(&doors, Some(0), &mut input, &mut prev, &ws), DoorDecision::Transition(0)));
    assert_eq!(prev, None);
    // Standing in the door after a transition was refused by the caller: remembered overlap.
    let mut prev = Some(0);
    assert!(matches!(decide_door(&doors, Some(0), &mut input, &mut prev, &ws), DoorDecision::Nothing));
    assert!(matches!(decide_door(&doors, None, &mut input, &mut prev, &ws), DoorDecision::Nothing));
    assert_eq!(prev, None);
}

#[test]
fn confirm_door_needs_a_press_and_consumes_it() {
    let doors = vec![door(true, None, None)];
    let ws = WorldState::new();
    let mut input = InputState::new();
    let mut prev = None;
    assert!(matches!(decide_door(&doors, Some(0), &mut input, &mut prev, &ws), DoorDecision::Nothing));
    input.apply_key(&key(KeyCode::Space, true, false));
    assert!(matches!(decide_door(&doors, Some(0), &mut input, &mut prev, &ws), DoorDecision::Transition(0)));
    assert!(!input.confirm_pressed);
}

#[test]
fn story_gate_blocks_with_trimmed_message() {
    let doors = vec![door(false, Some(" flag:mom_intro_done "), Some("  Talk to Mom first.  ")), door(false, Some("flag:x"), None)];
    let mut ws = WorldState::new();
    let mut input = InputState::new();
    let mut prev = None;
    match decide_door(&doors, Some(0), &mut input, &mut prev, &ws) {
        DoorDecision::Blocked { message } => assert_eq!(message, "Talk to Mom first."),
        other => panic!("expected Blocked, got {:?}", other),
    }
    assert_eq!(prev, Some(0));
    let mut prev = None;
    match decide_door(&doors, Some(1), &mut input, &mut prev, &ws) {
        DoorDecision::Blocked { message } => assert_eq!(message, ""),
        other => panic!("expected Blocked, got {:?}", other),
    }
    ws.set_flag("mom_intro_done");
    let mut prev = None;
    assert!(matches!(decide_door(&doors, Some(0), &mut input, &mut prev, &ws), DoorDecision::Transition(0)));
}

#[test]
fn door_prop_ids() {
    let mut d = door(false, None, None);
    assert_eq!(d.prop_id(), None);
    d.prop = Some(" none ".to_string());
    assert_eq!(d.prop_id(), None);
    d.prop = Some("   ".to_string());
    assert_eq!(d.prop_id(), None);
    d.prop = Some(" southHeavy ".to_string());
    assert_eq!(d.prop_id(), Some("southHeavy"));
}

#[test]
fn game_config_validation() {
    let ok = GameConfig { start_map: "mumhome.secondFloor".into(), seed_demo_backpack: true, window_title: "BangBang".into() };
    assert!(ok.validate().is_ok());
    let bad_map = GameConfig { start_map: "  ".into(), ..ok.clone() };
    assert_eq!(bad_map.validate().unwrap_err(), "start_map must be non-empty");
    let bad_title = GameConfig { window_title: "".into(), ..ok };
    assert_eq!(bad_title.validate().unwrap_err(), "window_title must be non-empty");
}

#[test]
fn speaker_names_become_asset_ids() {
    assert_eq!(speaker_to_asset_id("Bank Owner"), "bankOwner");
    assert_eq!(speaker_to_asset_id("  silas  "), "silas");
    assert_eq!(speaker_to_asset_id("OLD   mAN jenkins"), "oldManJenkins");
    assert_eq!(speaker_to_asset_id("   "), "unknown");
    assert_eq!(speaker_to_asset_id(""), "unknown");
}

#[test]
fn scene_cache_loads_once_and_reports_errors() {
    let mut cache = SceneCache::new();
    let def = SceneDef {
        id: "robbery".into(),
        steps: vec![
            SceneStep::Dialogue { speaker: "Silas".into(), portrait: None, lines: vec!["Hands up!".into()] },
            SceneStep::GiveSkill { skill_id: "sidearm".into() },
            SceneStep::SetFlag { flag: "robbed".into() },
        ],
    };
    let loaded = cache.get_or_load("robbery", |_: &str| -> Result<SceneDef, String> { Ok(def) });
    assert_eq!(loaded.map(|d| d.steps.len()), Ok(3));
    let again = cache.get_or_load("robbery", |_: &str| -> Result<SceneDef, String> { panic!("cached") });
    assert!(again.is_ok());
    let missing = cache.get_or_load("nope", |id: &str| -> Result<SceneDef, String> { Err(format!("no {id}")) });
    assert_eq!(missing.map(|d| d.id.clone()), Err("no nope".to_string()));
}

fn no_load(_: &str) -> Option<Conversation> {
    None
}

#[test]
fn opening_a_missing_conversation_uses_a_placeholder() {
    let mut cache = ConversationCache::new();
    let mut ws = WorldState::new();
    let (c, n, l) = open_dialogue(&mut cache, &mut ws, "mom", no_load).expect("placeholder");
    assert_eq!((c.as_str(), n.as_str(), l), ("mom_missing", "start", 0));
    assert!(cache.contains("mom_missing"));
}

#[test]
fn gated_conversation_falls_back_to_its_default_line() {
    let mut cache = ConversationCache::new();
    let mut ws = WorldState::new();
    let mut conv = Conversation::one_line("Welcome back.");
    conv.require_state = Some(DialogueCondition::parse("flag:met").unwrap());
    conv.default_line = Some("Who are you?".into());
    let opened = open_dialogue(&mut cache, &mut ws, "sheriff", |_: &str| Some(conv));
    let (c, n, l) = opened.expect("fallback");
    assert_eq!((c.as_str(), n.as_str(), l), ("sheriff_fallback", "start", 0));
    // Once the flag is set the conversation itself opens.
    ws.set_flag("met");
    let (c, _, _) = open_dialogue(&mut cache, &mut ws, "sheriff", no_load).expect("real");
    assert_eq!(c, "sheriff");
}

#[test]
fn app_state_opens_and_walks_a_dialogue() {
    let mut state = AppState::default();
    let mut cache = ConversationCache::new();
    let mut ws = WorldState::new();
    let mut input = InputState::new();

    input.apply_key(&key(KeyCode::KeyB, true, false));
    state.toggle_backpack(&mut input);
    assert!(state.backpack_is_open());
    input.apply_key(&key(KeyCode::KeyB, true, false));
    state.toggle_backpack(&mut input);
    assert!(!state.backpack_is_open());

    let trigger = NpcInteraction { npc_id: "mom".into(), conversation_id: "mom".into() };
    state.after_overworld_move(Some(trigger), true, &mut cache, &mut ws, |_: &str| Some(Conversation::one_line("Hi")));
    let len = state.dialogue_line_len(&mut cache, no_load).expect("line");
    assert_eq!(len, 2);
    state.reveal_chars(1, len);
    assert_eq!(state.dialogue_display_text(&cache).as_deref(), Some("H"));
    assert_eq!(state.dialogue_message(&cache).as_deref(), Some("Hi"));

    // First confirm shows the whole line, the second ends the dialogue.
    input.apply_key(&key(KeyCode::Space, true, false));
    assert!(!state.dialogue_confirm(&mut input, &cache, &mut ws, len));
    assert_eq!(state.dialogue_display_text(&cache).as_deref(), Some("Hi"));
    input.apply_key(&key(KeyCode::Space, true, false));
    assert!(!state.dialogue_confirm(&mut input, &cache, &mut ws, len));
    assert!(matches!(state, AppState::Overworld { last_near_npc: true, backpack_open: false }));

    // Standing next to the NPC does not reopen the dialogue.
    let trigger = NpcInteraction { npc_id: "mom".into(), conversation_id: "mom".into() };
    state.after_overworld_move(Some(trigger), true, &mut cache, &mut ws, no_load);
    assert!(matches!(state, AppState::Overworld { last_near_npc: true, .. }));
}

#[test]
fn save_and_load_keys_latch_until_taken() {
    let mut input = InputState::new();
    input.apply_key(&key(KeyCode::F5, true, true));
    assert!(!input.take_save_game_request());
    input.apply_key(&key(KeyCode::F5, true, false));
    input.apply_key(&key(KeyCode::F5, false, false));
    assert!(input.take_save_game_request());
    assert!(!input.take_save_game_request());
    input.apply_key(&key(KeyCode::F9, true, false));
    assert!(!input.take_save_game_request());
    assert!(input.take_load_game_request());
    assert!(!input.take_load_game_request());
}

#[test]
fn save_and_load_requests_count_only_with_the_backpack_open() {
    let mut input = InputState::new();
    input.apply_key(&key(KeyCode::F5, true, false));
    input.apply_key(&key(KeyCode::F9, true, false));
    let closed = AppState::Overworld { last_near_npc: false, backpack_open: false };
    assert_eq!(closed.take_save_load_requests(&mut input), (false, false));
    assert!(!input.take_save_game_request() && !input.take_load_game_request());

    input.apply_key(&key(KeyCode::F5, true, false));
    let open = AppState::Overworld { last_near_npc: false, backpack_open: true };
    assert_eq!(open.take_save_load_requests(&mut input), (true, false));
    assert_eq!(open.take_save_load_requests(&mut input), (false, false));
}
