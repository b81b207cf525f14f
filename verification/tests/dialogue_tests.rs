use bangbang::dialogue::tree::{BranchSerde, ConversationJson, ConversationLoadError, NodeSerde};
use bangbang::dialogue::{
    advance, current_display, entry_point, state_satisfied, world_state_satisfies, Conversation,
    ConversationCache, DialogueCondition, DialogueEffect, DialogueParseError,
};
use bangbang::state::WorldState;

fn dummy_conv_with_req(req: Option<&str>) -> Conversation {
    let mut conv = Conversation::one_line("dummy");
    conv.require_state = req.filter(|s| !s.trim().is_empty()).map(|s| match DialogueCondition::parse(s) {
        Ok(c) => c,
        Err(_) => panic!("test condition"),
    });
    conv
}

fn no_load(_: &str) -> Option<Conversation> {
    None
}

#[test]
fn world_state_satisfies_matches_state_satisfied_empty() {
    let w = WorldState::default();
    assert!(world_state_satisfies(None, &w));
    assert!(world_state_satisfies(Some(""), &w));
    assert!(world_state_satisfies(Some("   "), &w));
    let conv = dummy_conv_with_req(None);
    assert!(state_satisfied(&conv, &w));
}

#[test]
fn test_quest_effects() {
    let mut w = WorldState::default();
    DialogueEffect::parse("start_quest:find_dog").unwrap().apply(&mut w);
    assert!(w.quest_active("find_dog"));
    assert!(!w.quest_complete("find_dog"));

    DialogueEffect::parse("complete_quest:find_dog").unwrap().apply(&mut w);
    assert!(!w.quest_active("find_dog"));
    assert!(w.quest_complete("find_dog"));
}

#[test]
fn test_require_state_satisfied() {
    let w = WorldState::default();
    let conv_empty = dummy_conv_with_req(None);
    let conv_flag = dummy_conv_with_req(Some("flag:known"));
    let conv_quest = dummy_conv_with_req(Some("quest_active:run"));

    assert!(state_satisfied(&conv_empty, &w));
    assert!(!state_satisfied(&conv_flag, &w));
    assert!(!state_satisfied(&conv_quest, &w));

    let mut w2 = WorldState::default();
    w2.set_flag("known");
    w2.start_quest("run");

    assert!(state_satisfied(&conv_flag, &w2));
    assert!(state_satisfied(&conv_quest, &w2));
}

#[test]
fn test_entry_point_with_require_state() {
    let conv = dummy_conv_with_req(Some("flag:met"));
    let mut w = WorldState::default();

    // fails requirement
    assert!(entry_point(&conv, &mut w).is_none());

    // passes requirement
    w.set_flag("met");
    assert!(entry_point(&conv, &mut w).is_some());
}

#[test]
fn generated_conversations_use_separate_cache_keys() {
    let mut cache = ConversationCache::new();
    assert!(cache.get_or_load("__missing_real_conversation__", no_load).is_none());
    cache.insert_generated(
        "__missing_real_conversation___fallback",
        Conversation::one_line("placeholder"),
    );
    assert!(cache.get_or_load("__missing_real_conversation__", no_load).is_none());
    assert_eq!(
        current_display(
            cache
                .get_or_load("__missing_real_conversation___fallback", no_load)
                .expect("generated conversation should be cached"),
            "start",
            0
        ),
        Some("placeholder")
    );
}

// --- Parsing -----------------------------------------------------------------------------------

#[test]
fn condition_parse_reads_each_prefix_and_trims() {
    assert!(matches!(DialogueCondition::parse("flag:x"), Ok(DialogueCondition::Flag(s)) if s == "x"));
    assert!(matches!(DialogueCondition::parse("  path:gunslinger "), Ok(DialogueCondition::Path(s)) if s == "gunslinger"));
    assert!(matches!(DialogueCondition::parse("quest_active:q"), Ok(DialogueCondition::QuestActive(s)) if s == "q"));
    assert!(matches!(DialogueCondition::parse("quest_complete:q"), Ok(DialogueCondition::QuestComplete(s)) if s == "q"));
}

#[test]
fn condition_parse_errors_and_messages() {
    match DialogueCondition::parse("   ") {
        Err(e @ DialogueParseError::EmptyInput { .. }) => {
            assert_eq!(e.message(), "empty condition string (expected a prefix like flag:\u{2026})")
        }
        other => panic!("expected EmptyInput, got {:?}", other),
    }
    match DialogueCondition::parse("flag:") {
        Err(e @ DialogueParseError::EmptyPayload { .. }) => {
            assert_eq!(e.message(), "empty payload after prefix \"flag:\"")
        }
        other => panic!("expected EmptyPayload, got {:?}", other),
    }
    match DialogueCondition::parse("unknown:x") {
        Err(e @ DialogueParseError::UnknownPrefix { .. }) => assert_eq!(
            e.message(),
            "unknown condition prefix (expected flag:, path:, quest_active:, quest_complete:): \"unknown:x\""
        ),
        other => panic!("expected UnknownPrefix, got {:?}", other),
    }
    match DialogueEffect::parse("not_a_real_prefix:1") {
        Err(e @ DialogueParseError::UnknownPrefix { .. }) => assert_eq!(
            e.message(),
            "unknown effect prefix (expected set_flag:, set_path:, start_quest:, complete_quest:): \"not_a_real_prefix:1\""
        ),
        other => panic!("expected UnknownPrefix, got {:?}", other),
    }
}

#[test]
fn effects_set_flag_and_path() {
    let mut w = WorldState::default();
    DialogueEffect::parse("set_flag:met_mom").unwrap().apply(&mut w);
    DialogueEffect::parse("set_path:outlaw").unwrap().apply(&mut w);
    assert!(w.has_flag("met_mom"));
    assert_eq!(w.path(), Some("outlaw"));
    assert!(!w.is_neutral());
    assert!(DialogueCondition::parse("path:outlaw").unwrap().matches(&w));
    assert!(!DialogueCondition::parse("path:lawman").unwrap().matches(&w));
}

// --- Conversations from raw JSON shapes ------------------------------------------------------

fn node(line: Option<&str>, next: Option<&str>, branches: Vec<BranchSerde>, effects: Vec<&str>) -> NodeSerde {
    NodeSerde {
        line: line.map(|s| s.to_string()),
        lines: Vec::new(),
        next: next.map(|s| s.to_string()),
        branches,
        effects: effects.into_iter().map(|s| s.to_string()).collect(),
    }
}

fn branch(cond: Option<&str>, next: &str) -> BranchSerde {
    BranchSerde { condition: cond.map(|s| s.to_string()), next: next.to_string() }
}

#[test]
fn from_json_rejects_unknown_effect() {
    let raw = ConversationJson {
        start: "a".to_string(),
        nodes: vec![("a".to_string(), node(Some("x"), None, vec![], vec!["not_a_real_prefix:1"]))],
        require_state: None,
        default_line: None,
    };
    assert!(matches!(Conversation::from_raw(&raw), Err(ConversationLoadError::Dialogue(_))));
}

#[test]
fn from_json_rejects_unknown_branch_condition() {
    let raw = ConversationJson {
        start: "a".to_string(),
        nodes: vec![
            ("a".to_string(), node(None, None, vec![branch(Some("unknown:x"), "b")], vec![])),
            ("b".to_string(), node(Some("y"), None, vec![], vec![])),
        ],
        require_state: None,
        default_line: None,
    };
    assert!(matches!(Conversation::from_raw(&raw), Err(ConversationLoadError::Dialogue(_))));
}

#[test]
fn test_quest_conditions_in_dialogue() {
    let raw = ConversationJson {
        start: "check".to_string(),
        nodes: vec![
            (
                "check".to_string(),
                node(
                    None,
                    None,
                    vec![
                        branch(Some("quest_active:test"), "is_active"),
                        branch(Some("quest_complete:test"), "is_complete"),
                        branch(None, "default"),
                    ],
                    vec![],
                ),
            ),
            ("is_active".to_string(), node(Some("active"), None, vec![], vec![])),
            ("is_complete".to_string(), node(Some("complete"), None, vec![], vec![])),
            ("default".to_string(), node(Some("none"), None, vec![], vec![])),
        ],
        require_state: None,
        default_line: None,
    };
    let conv = match Conversation::from_raw(&raw) {
        Ok(c) => c,
        Err(_) => panic!("conversation should load"),
    };
    let mut w = WorldState::default();
    let (n, _) = entry_point(&conv, &mut w).unwrap();
    assert_eq!(n, "default");
    w.start_quest("test");
    let (n, _) = entry_point(&conv, &mut w).unwrap();
    assert_eq!(n, "is_active");
    w.complete_quest("test");
    let (n, _) = entry_point(&conv, &mut w).unwrap();
    assert_eq!(n, "is_complete");
}

#[test]
fn advance_walks_lines_then_applies_effects_and_finishes() {
    let mut two = node(None, Some("end"), vec![], vec!["set_flag:talked"]);
    two.lines = vec!["one".to_string(), "two".to_string()];
    let raw = ConversationJson {
        start: "a".to_string(),
        nodes: vec![
            ("a".to_string(), two),
            ("end".to_string(), node(Some("bye"), None, vec![], vec![])),
        ],
        require_state: None,
        default_line: None,
    };
    let conv = match Conversation::from_raw(&raw) {
        Ok(c) => c,
        Err(_) => panic!("conversation should load"),
    };
    let mut w = WorldState::default();
    assert_eq!(current_display(&conv, "a", 1), Some("two"));
    assert_eq!(current_display(&conv, "a", 2), None);
    let r = advance(&conv, "a", 0, &mut w);
    assert_eq!((r.node_id.as_str(), r.line_index, r.finished), ("a", 1, false));
    assert!(!w.has_flag("talked"));
    let r = advance(&conv, "a", 1, &mut w);
    assert_eq!((r.node_id.as_str(), r.line_index, r.finished), ("end", 0, false));
    assert!(w.has_flag("talked"));
    let r = advance(&conv, "end", 0, &mut w);
    assert!(r.finished);
    let r = advance(&conv, "nowhere", 0, &mut w);
    assert_eq!((r.node_id.as_str(), r.line_index, r.finished), ("nowhere", 0, true));
}

#[test]
fn cache_get_or_load_calls_loader_once() {
    let mut cache = ConversationCache::new();
    let loaded = cache.get_or_load("greeting", |_: &str| Some(Conversation::one_line("howdy")));
    assert!(loaded.is_some());
    // Cached now: the loader is not needed any more.
    let again = cache.get_or_load("greeting", |_: &str| -> Option<Conversation> {
        panic!("loader must not run for a cached conversation")
    });
    assert_eq!(current_display(again.unwrap(), "start", 0), Some("howdy"));
    assert!(cache.contains("greeting"));
    assert!(!cache.contains("other"));
}

#[test]
fn insert_generated_keeps_an_existing_conversation() {
    let mut cache = ConversationCache::new();
    cache.insert_generated("x_fallback", Conversation::one_line("first"));
    let kept = cache.insert_generated("x_fallback", Conversation::one_line("second"));
    assert_eq!(current_display(kept, "start", 0), Some("first"));
}

#[test]
fn load_error_messages() {
    let e = ConversationLoadError::Dialogue("node a: bad effect".to_string());
    assert_eq!(e.message(), "node a: bad effect");
    let json_err = serde_json::from_str::<u32>("nope").unwrap_err();
    let expected = serde_json::from_str::<u32>("nope").unwrap_err().to_string();
    assert_eq!(ConversationLoadError::Json(json_err).message(), expected);
    let raw = ConversationJson {
        start: "a".to_string(),
        nodes: vec![("a".to_string(), node(Some("x"), None, vec![], vec!["not_a_real_prefix:1"]))],
        require_state: None,
        default_line: None,
    };
    match Conversation::from_raw(&raw) {
        Err(e @ ConversationLoadError::Dialogue(_)) => assert!(e.message().contains("not_a_real_prefix")),
        _ => panic!("expected a dialogue error"),
    }
}
