//! Conversation tree types: nodes, branches, effects, and the text syntax of conditions and
//! effects.
//!
//! ## Conditions (branch)
//!
//! | Prefix | Example | Checks |
//! |--------|---------|--------|
//! | `flag:` | `flag:met_sheriff` | `WorldState::has_flag` |
//! | `path:` | `path:bandit` | `WorldState::path()` |
//! | `quest_active:` | `quest_active:withdraw_gold` | `WorldState::quest_active` |
//! | `quest_complete:` | `quest_complete:withdraw_gold` | `WorldState::quest_complete` |
//!
//! ## Effects (node)
//!
//! | Prefix | Example | Calls |
//! |--------|---------|-------|
//! | `set_flag:` | `set_flag:met_sheriff` | `WorldState::set_flag` |
//! | `set_path:` | `set_path:bandit` | `WorldState::choose_path` |
//! | `start_quest:` | `start_quest:withdraw_gold` | `WorldState::start_quest` |
//! | `complete_quest:` | `complete_quest:withdraw_gold` | `WorldState::complete_quest` |

use vstd::prelude::*;

use crate::state::world::{
    choose_path_view, complete_quest_view, opt_view, set_flag_view, start_quest_view,
    WorldState, WorldStateView,
};
use crate::text::{
    concat, debug_str, debug_str_view, decimal_view, names, owned, str_eq, strip_prefix, trim,
    trim_view, usize_text,
};

verus! {

/// Failure when parsing a condition or effect string (e.g. unknown prefix, empty payload).
#[derive(Debug)]
pub enum DialogueParseError {
    EmptyInput { kind: &'static str },
    EmptyPayload { prefix: &'static str },
    UnknownPrefix { kind: &'static str, input: String },
}

/// Branch / gate condition.
#[derive(Debug)]
pub enum DialogueCondition {
    Flag(String),
    Path(String),
    QuestActive(String),
    QuestComplete(String),
}

/// Node effect applied after the last line of a node.
#[derive(Debug)]
pub enum DialogueEffect {
    SetFlag(String),
    SetPath(String),
    StartQuest(String),
    CompleteQuest(String),
}

/// How a trimmed condition or effect string reads against a table of prefixes.
pub enum PrefixMatch {
    /// Nothing but white space.
    Empty,
    /// Prefix `i` matched, but nothing but white space follows it.
    EmptyPayload(int),
    /// No prefix matched.
    Unknown,
    /// Prefix `i` matched; the trimmed rest is the payload.
    Found(int, Seq<char>),
}

/// Index of the first prefix at or after `i` that begins `t`.
pub open spec fn first_prefix(t: Seq<char>, ps: Seq<Seq<char>>, i: int) -> Option<int>
    decreases ps.len() - i,
{
    if i < 0 || i >= ps.len() {
        None
    } else if ps[i].is_prefix_of(t) {
        Some(i)
    } else {
        first_prefix(t, ps, i + 1)
    }
}

proof fn lemma_first_prefix_range(t: Seq<char>, ps: Seq<Seq<char>>, i: int)
    ensures
        first_prefix(t, ps, i) matches Some(j) ==> i <= j < ps.len() && ps[j].is_prefix_of(t),
    decreases ps.len() - i,
{
    if 0 <= i < ps.len() && !ps[i].is_prefix_of(t) {
        lemma_first_prefix_range(t, ps, i + 1);
    }
}

/// Trimming twice is trimming once.
pub proof fn lemma_trim_idempotent(s: Seq<char>)
    ensures
        trim_view(trim_view(s)) == trim_view(s),
{
    crate::text::lemma_trim_idempotent(s);
}

/// Reading of `input` against the prefix table `ps`: trim, take the first matching prefix,
/// trim what follows it.
pub open spec fn prefix_match(input: Seq<char>, ps: Seq<Seq<char>>) -> PrefixMatch {
    let t = trim_view(input);
    if t.len() == 0 {
        PrefixMatch::Empty
    } else {
        match first_prefix(t, ps, 0) {
            Some(i) => {
                let p = trim_view(t.skip(ps[i].len() as int));
                if p.len() == 0 {
                    PrefixMatch::EmptyPayload(i)
                } else {
                    PrefixMatch::Found(i, p)
                }
            },
            None => PrefixMatch::Unknown,
        }
    }
}

/// The characters of each string slice of a table.
pub open spec fn strs_view(t: Seq<&'static str>) -> Seq<Seq<char>> {
    t.map_values(|x: &'static str| x@)
}

/// Condition prefixes, in the order they are tried.
pub open spec fn condition_prefixes() -> Seq<Seq<char>> {
    seq!["flag:"@, "path:"@, "quest_active:"@, "quest_complete:"@]
}

/// Effect prefixes, in the order they are tried.
pub open spec fn effect_prefixes() -> Seq<Seq<char>> {
    seq!["set_flag:"@, "set_path:"@, "start_quest:"@, "complete_quest:"@]
}

/// `r` is what parsing `input` against prefix table `ps` for `kind` gives: the error or the
/// index of the matched prefix with the payload.
pub open spec fn prefixed_result(
    input: Seq<char>,
    kind: &'static str,
    table: Seq<&'static str>,
    r: Result<(usize, String), DialogueParseError>,
) -> bool {
    match prefix_match(input, strs_view(table)) {
        PrefixMatch::Empty => r == Err::<(usize, String), _>(
            DialogueParseError::EmptyInput { kind },
        ),
        PrefixMatch::EmptyPayload(i) => r == Err::<(usize, String), _>(
            DialogueParseError::EmptyPayload { prefix: table[i] },
        ),
        PrefixMatch::Unknown => match r {
            Err(DialogueParseError::UnknownPrefix { kind: k, input: s }) => k == kind && s@
                == trim_view(input),
            _ => false,
        },
        PrefixMatch::Found(i, p) => match r {
            Ok((j, s)) => j == i && s@ == p,
            _ => false,
        },
    }
}

/// Variant number of a condition (table order) and its name.
pub open spec fn condition_parts(c: DialogueCondition) -> (int, Seq<char>) {
    match c {
        DialogueCondition::Flag(n) => (0, n@),
        DialogueCondition::Path(n) => (1, n@),
        DialogueCondition::QuestActive(n) => (2, n@),
        DialogueCondition::QuestComplete(n) => (3, n@),
    }
}

/// Variant number of an effect (table order) and its name.
pub open spec fn effect_parts(e: DialogueEffect) -> (int, Seq<char>) {
    match e {
        DialogueEffect::SetFlag(n) => (0, n@),
        DialogueEffect::SetPath(n) => (1, n@),
        DialogueEffect::StartQuest(n) => (2, n@),
        DialogueEffect::CompleteQuest(n) => (3, n@),
    }
}

/// `r` is what parsing `input` as a condition gives.
pub open spec fn parsed_condition(
    input: Seq<char>,
    r: Result<DialogueCondition, DialogueParseError>,
) -> bool {
    match prefix_match(input, condition_prefixes()) {
        PrefixMatch::Empty => match r {
            Err(DialogueParseError::EmptyInput { kind }) => kind@ == "condition"@,
            _ => false,
        },
        PrefixMatch::EmptyPayload(i) => match r {
            Err(DialogueParseError::EmptyPayload { prefix }) => prefix@ == condition_prefixes()[i],
            _ => false,
        },
        PrefixMatch::Unknown => match r {
            Err(DialogueParseError::UnknownPrefix { kind, input: s }) => kind@ == "condition"@
                && s@ == trim_view(input),
            _ => false,
        },
        PrefixMatch::Found(i, p) => match r {
            Ok(c) => condition_parts(c) == (i, p),
            _ => false,
        },
    }
}

/// `r` is what parsing `input` as an effect gives.
pub open spec fn parsed_effect(input: Seq<char>, r: Result<DialogueEffect, DialogueParseError>) -> bool {
    match prefix_match(input, effect_prefixes()) {
        PrefixMatch::Empty => match r {
            Err(DialogueParseError::EmptyInput { kind }) => kind@ == "effect"@,
            _ => false,
        },
        PrefixMatch::EmptyPayload(i) => match r {
            Err(DialogueParseError::EmptyPayload { prefix }) => prefix@ == effect_prefixes()[i],
            _ => false,
        },
        PrefixMatch::Unknown => match r {
            Err(DialogueParseError::UnknownPrefix { kind, input: s }) => kind@ == "effect"@ && s@
                == trim_view(input),
            _ => false,
        },
        PrefixMatch::Found(i, p) => match r {
            Ok(e) => effect_parts(e) == (i, p),
            _ => false,
        },
    }
}

/// Parse `input` against a four-entry prefix table: the index of the first prefix that begins
/// the trimmed input, with the trimmed rest.
fn parse_prefixed(input: &str, kind: &'static str, table: &[&'static str; 4]) -> (r: Result<
    (usize, String),
    DialogueParseError,
>)
    ensures
        prefixed_result(input@, kind, table@, r),
{
    let t = trim(input);
    if t.is_empty() {
        return Err(DialogueParseError::EmptyInput { kind });
    }
    let ghost ps = strs_view(table@);
    let mut i: usize = 0;
    while i < 4
        invariant
            i <= 4,
            ps == strs_view(table@),
            t@ == trim_view(input@),
            t@.len() > 0,
            first_prefix(t@, ps, 0) == first_prefix(t@, ps, i as int),
        decreases 4 - i,
    {
        let p: &'static str = table[i];
        match strip_prefix(t, p) {
            Some(rest) => {
                assert(ps[i as int] == p@);
                let payload = trim(rest);
                if payload.is_empty() {
                    return Err(DialogueParseError::EmptyPayload { prefix: p });
                }
                return Ok((i, owned(payload)));
            },
            None => {
                assert(ps[i as int] == p@);
                assert(first_prefix(t@, ps, i as int) == first_prefix(t@, ps, i + 1));
            },
        }
        i = i + 1;
    }
    Err(DialogueParseError::UnknownPrefix { kind, input: owned(t) })
}

/// Whether condition `c` holds in story state `w`.
pub open spec fn condition_holds(c: DialogueCondition, w: WorldStateView) -> bool {
    match c {
        DialogueCondition::Flag(n) => w.flags.contains(n@),
        DialogueCondition::Path(n) => w.path == Some(n@),
        DialogueCondition::QuestActive(n) => w.active_quests.contains(n@),
        DialogueCondition::QuestComplete(n) => w.completed_quests.contains(n@),
    }
}

/// Story state after effect `e`.
pub open spec fn effect_result(e: DialogueEffect, w: WorldStateView) -> WorldStateView {
    match e {
        DialogueEffect::SetFlag(n) => set_flag_view(w, n@),
        DialogueEffect::SetPath(n) => choose_path_view(w, n@),
        DialogueEffect::StartQuest(n) => start_quest_view(w, n@),
        DialogueEffect::CompleteQuest(n) => complete_quest_view(w, n@),
    }
}

/// Story state after effects `es`, applied in order.
pub open spec fn effects_result(es: Seq<DialogueEffect>, w: WorldStateView) -> WorldStateView
    decreases es.len(),
{
    if es.len() == 0 {
        w
    } else {
        effect_result(es.last(), effects_result(es.drop_last(), w))
    }
}

impl DialogueCondition {
    /// Parse a condition string such as `flag:met_sheriff`.
    pub fn parse(s: &str) -> (r: Result<Self, DialogueParseError>)
        ensures
            parsed_condition(s@, r),
    {
        let table: [&'static str; 4] = ["flag:", "path:", "quest_active:", "quest_complete:"];
        assert(strs_view(table@) =~= condition_prefixes());
        proof {
            lemma_first_prefix_range(trim_view(s@), condition_prefixes(), 0);
        }
        let kind: &'static str = "condition";
        let r = parse_prefixed(s, kind, &table);
        assert(kind@ == "condition"@);
        match r {
            Ok((i, p)) => Ok(
                if i == 0 {
                    DialogueCondition::Flag(p)
                } else if i == 1 {
                    DialogueCondition::Path(p)
                } else if i == 2 {
                    DialogueCondition::QuestActive(p)
                } else {
                    DialogueCondition::QuestComplete(p)
                },
            ),
            Err(e) => Err(e),
        }
    }

    /// Whether the condition holds in the given story state.
    pub fn matches(&self, world_state: &WorldState) -> (r: bool)
        ensures
            r == condition_holds(*self, world_state@),
    {
        match self {
            DialogueCondition::Flag(name) => world_state.has_flag(name.as_str()),
            DialogueCondition::Path(name) => match world_state.path() {
                Some(p) => str_eq(p, name.as_str()),
                None => false,
            },
            DialogueCondition::QuestActive(id) => world_state.quest_active(id.as_str()),
            DialogueCondition::QuestComplete(id) => world_state.quest_complete(id.as_str()),
        }
    }
}

impl DialogueEffect {
    /// Parse an effect string such as `set_flag:met_sheriff`.
    pub fn parse(s: &str) -> (r: Result<Self, DialogueParseError>)
        ensures
            parsed_effect(s@, r),
    {
        let table: [&'static str; 4] = ["set_flag:", "set_path:", "start_quest:", "complete_quest:"];
        assert(strs_view(table@) =~= effect_prefixes());
        proof {
            lemma_first_prefix_range(trim_view(s@), effect_prefixes(), 0);
        }
        let kind: &'static str = "effect";
        let r = parse_prefixed(s, kind, &table);
        assert(kind@ == "effect"@);
        match r {
            Ok((i, p)) => Ok(
                if i == 0 {
                    DialogueEffect::SetFlag(p)
                } else if i == 1 {
                    DialogueEffect::SetPath(p)
                } else if i == 2 {
                    DialogueEffect::StartQuest(p)
                } else {
                    DialogueEffect::CompleteQuest(p)
                },
            ),
            Err(e) => Err(e),
        }
    }

    /// Apply the effect to the story state.
    pub fn apply(&self, world_state: &mut WorldState)
        ensures
            final(world_state)@ == effect_result(*self, old(world_state)@),
    {
        match self {
            DialogueEffect::SetFlag(name) => world_state.set_flag(name.as_str()),
            DialogueEffect::SetPath(name) => world_state.choose_path(name.as_str()),
            DialogueEffect::StartQuest(id) => world_state.start_quest(id.as_str()),
            DialogueEffect::CompleteQuest(id) => world_state.complete_quest(id.as_str()),
        }
    }
}

/// One node: one or more lines (pages); then the next node or the first matching branch.
pub struct Node {
    pub lines: Vec<String>,
    pub next: Option<String>,
    pub branches: Vec<Branch>,
    pub effects: Vec<DialogueEffect>,
}

/// Conditional branch: optional condition, next node id.
///
/// A branch with no condition always matches (use as default/fallback after specific conditions).
pub struct Branch {
    pub condition: Option<DialogueCondition>,
    pub next: String,
}

/// One conversation: start node id and all nodes by id.
///
/// Optional `require_state` gates entry; when gating fails, `default_line` is shown instead.
/// A node id is looked up by its first entry in `nodes`.
pub struct Conversation {
    pub start: String,
    pub nodes: Vec<(String, Node)>,
    /// Condition that must hold for this conversation to open; `None` = always open.
    pub require_state: Option<DialogueCondition>,
    /// Line shown when `require_state` is not satisfied. If `None`, dialogue is silently skipped.
    pub default_line: Option<String>,
}

/// Index of the first entry at or after `i` whose id is `id`.
pub open spec fn node_index_from(nodes: Seq<(String, Node)>, id: Seq<char>, i: int) -> Option<int>
    decreases nodes.len() - i,
{
    if i < 0 || i >= nodes.len() {
        None
    } else if nodes[i].0@ == id {
        Some(i)
    } else {
        node_index_from(nodes, id, i + 1)
    }
}

/// The node with id `id` in `conv`, if any.
pub open spec fn lookup_node(conv: Conversation, id: Seq<char>) -> Option<Node> {
    match node_index_from(conv.nodes@, id, 0) {
        Some(i) => Some(conv.nodes@[i].1),
        None => None,
    }
}

/// The lines of node `id`; empty if there is no such node.
pub open spec fn node_lines_view(conv: Conversation, id: Seq<char>) -> Seq<String> {
    match lookup_node(conv, id) {
        Some(n) => n.lines@,
        None => Seq::empty(),
    }
}

/// Whether branch `b` matches in `w`: no condition, or a condition that holds.
pub open spec fn branch_holds(b: Branch, w: WorldStateView) -> bool {
    match b.condition {
        None => true,
        Some(c) => condition_holds(c, w),
    }
}

/// Target of the first branch at or after `i` that matches in `w`.
pub open spec fn first_branch_from(bs: Seq<Branch>, w: WorldStateView, i: int) -> Option<Seq<char>>
    decreases bs.len() - i,
{
    if i < 0 || i >= bs.len() {
        None
    } else if branch_holds(bs[i], w) {
        Some(bs[i].next@)
    } else {
        first_branch_from(bs, w, i + 1)
    }
}

/// Next node id after `n` in `w`: its `next` when set, else the first matching branch.
pub open spec fn next_of(n: Node, w: WorldStateView) -> Option<Seq<char>> {
    match n.next {
        Some(x) => Some(x@),
        None => first_branch_from(n.branches@, w, 0),
    }
}

proof fn lemma_node_index_range(nodes: Seq<(String, Node)>, id: Seq<char>, i: int)
    ensures
        node_index_from(nodes, id, i) matches Some(j) ==> 0 <= i <= j < nodes.len() && nodes[j].0@
            == id && forall|k: int| i <= k < j ==> nodes[k].0@ != id,
        node_index_from(nodes, id, i) is None ==> forall|k: int|
            0 <= i <= k < nodes.len() ==> nodes[k].0@ != id,
    decreases nodes.len() - i,
{
    if 0 <= i < nodes.len() && nodes[i].0@ != id {
        lemma_node_index_range(nodes, id, i + 1);
    }
}

impl Conversation {
    /// Position in `nodes` of the node with id `node_id`.
    fn find_node(&self, node_id: &str) -> (r: Option<usize>)
        ensures
            match r {
                Some(i) => i < self.nodes@.len() && node_index_from(self.nodes@, node_id@, 0) == Some(
                    i as int,
                ),
                None => node_index_from(self.nodes@, node_id@, 0) is None,
            },
    {
        proof {
            lemma_node_index_range(self.nodes@, node_id@, 0);
        }
        let mut i: usize = 0;
        while i < self.nodes.len()
            invariant
                i <= self.nodes.len(),
                node_index_from(self.nodes@, node_id@, 0) == node_index_from(
                    self.nodes@,
                    node_id@,
                    i as int,
                ),
            decreases self.nodes.len() - i,
        {
            if str_eq(self.nodes[i].0.as_str(), node_id) {
                return Some(i);
            }
            i = i + 1;
        }
        None
    }

    /// Lines for this node. Empty slice if the id is missing.
    pub fn node_lines(&self, node_id: &str) -> (r: &[String])
        ensures
            r@ == node_lines_view(*self, node_id@),
    {
        match self.find_node(node_id) {
            Some(i) => self.nodes[i].1.lines.as_slice(),
            None => {
                let empty: &[String] = &[];
                assert(empty@ =~= Seq::<String>::empty());
                empty
            },
        }
    }

    /// Number of lines (pages) in the node; zero if the id is missing.
    pub fn line_count(&self, node_id: &str) -> (r: usize)
        ensures
            r == node_lines_view(*self, node_id@).len(),
    {
        match self.find_node(node_id) {
            Some(i) => self.nodes[i].1.lines.len(),
            None => 0,
        }
    }

    /// The node with the given id.
    pub fn get_node(&self, node_id: &str) -> (r: Option<&Node>)
        ensures
            match r {
                Some(n) => lookup_node(*self, node_id@) == Some(*n),
                None => lookup_node(*self, node_id@) is None,
            },
    {
        match self.find_node(node_id) {
            Some(i) => Some(&self.nodes[i].1),
            None => None,
        }
    }

    /// A one-line conversation (node `start`, no branches), used when no conversation file exists.
    pub fn one_line(line: &str) -> (r: Self)
        ensures
            r.start@ == "start"@,
            r.require_state is None,
            r.default_line is None,
            r.nodes@.len() == 1,
            r.nodes@[0].0@ == "start"@,
            names(r.nodes@[0].1.lines@) == seq![line@],
            r.nodes@[0].1.next is None,
            r.nodes@[0].1.branches@.len() == 0,
            r.nodes@[0].1.effects@.len() == 0,
    {
        let mut lines: Vec<String> = Vec::new();
        lines.push(owned(line));
        let node = Node { lines, next: None, branches: Vec::new(), effects: Vec::new() };
        let mut nodes: Vec<(String, Node)> = Vec::new();
        nodes.push((owned("start"), node));
        let r = Conversation { start: owned("start"), nodes, require_state: None, default_line: None };
        assert(names(r.nodes@[0].1.lines@) =~= seq![line@]);
        r
    }
}

impl Branch {
    /// No condition, or a condition that holds.
    fn matches(&self, world_state: &WorldState) -> (r: bool)
        ensures
            r == branch_holds(*self, world_state@),
    {
        match &self.condition {
            None => true,
            Some(c) => c.matches(world_state),
        }
    }
}

impl Node {
    /// The next node id: `next` when set, else the first branch that matches.
    pub fn resolve_next(&self, world_state: &WorldState) -> (r: Option<String>)
        ensures
            opt_view(r) == next_of(*self, world_state@),
    {
        if let Some(next) = &self.next {
            return Some(owned(next.as_str()));
        }
        let mut i: usize = 0;
        while i < self.branches.len()
            invariant
                i <= self.branches.len(),
                self.next is None,
                first_branch_from(self.branches@, world_state@, 0) == first_branch_from(
                    self.branches@,
                    world_state@,
                    i as int,
                ),
            decreases self.branches.len() - i,
        {
            if self.branches[i].matches(world_state) {
                return Some(owned(self.branches[i].next.as_str()));
            }
            i = i + 1;
        }
        None
    }
}

/// The serde_json error type, carried unchanged inside [`ConversationLoadError`].
#[verifier::external_type_specification]
#[verifier::external_body]
pub struct ExJsonError(serde_json::Error);

/// Load-time failure for conversation JSON (syntax, or dialogue string rules).
pub enum ConversationLoadError {
    Json(serde_json::Error),
    Dialogue(String),
}

/// The text that `serde_json::Error`'s `Display` writes. Nothing is claimed of it: the
/// parser's messages are its own.
#[verifier::external_body]
fn json_error_text(e: &serde_json::Error) -> (r: String) {
    format!("{e}")
}

impl ConversationLoadError {
    /// Human-readable message: the JSON error's text, or the dialogue rule's message as it is.
    pub fn message(&self) -> (r: String)
        ensures
            self matches ConversationLoadError::Dialogue(m) ==> r@ == m@,
    {
        match self {
            ConversationLoadError::Json(e) => json_error_text(e),
            ConversationLoadError::Dialogue(m) => owned(m.as_str()),
        }
    }
}

/// The prefixes listed in the message for an unknown prefix of `kind`.
pub open spec fn expected_prefixes_text(kind: Seq<char>) -> Seq<char> {
    if kind == "condition"@ {
        "flag:, path:, quest_active:, quest_complete:"@
    } else if kind == "effect"@ {
        "set_flag:, set_path:, start_quest:, complete_quest:"@
    } else {
        "known prefixes"@
    }
}

/// The message text of a parse error.
pub open spec fn parse_error_text(e: DialogueParseError) -> Seq<char> {
    match e {
        DialogueParseError::EmptyInput { kind } => "empty "@ + kind@
            + " string (expected a prefix like flag:\u{2026})"@,
        DialogueParseError::EmptyPayload { prefix } => "empty payload after prefix "@
            + debug_str_view(prefix@),
        DialogueParseError::UnknownPrefix { kind, input } => "unknown "@ + kind@ + " prefix (expected "@
            + expected_prefixes_text(kind@) + "): "@ + debug_str_view(input@),
    }
}

/// The message of the parse error that reading `input` against table `ps` for `kind` gives
/// (meaningless when the reading succeeds).
pub open spec fn prefix_error_text(input: Seq<char>, kind: Seq<char>, ps: Seq<Seq<char>>) -> Seq<char> {
    match prefix_match(input, ps) {
        PrefixMatch::Empty => "empty "@ + kind + " string (expected a prefix like flag:\u{2026})"@,
        PrefixMatch::EmptyPayload(i) => "empty payload after prefix "@ + debug_str_view(ps[i]),
        _ => "unknown "@ + kind + " prefix (expected "@ + expected_prefixes_text(kind) + "): "@
            + debug_str_view(trim_view(input)),
    }
}

impl DialogueParseError {
    /// Human-readable message for the error.
    pub fn message(&self) -> (r: String)
        ensures
            r@ == parse_error_text(*self),
    {
        match self {
            DialogueParseError::EmptyInput { kind } => {
                let a = concat("empty ", kind);
                concat(a.as_str(), " string (expected a prefix like flag:\u{2026})")
            },
            DialogueParseError::EmptyPayload { prefix } => {
                let d = debug_str(prefix);
                concat("empty payload after prefix ", d.as_str())
            },
            DialogueParseError::UnknownPrefix { kind, input } => {
                let expected = if str_eq(kind, "condition") {
                    "flag:, path:, quest_active:, quest_complete:"
                } else if str_eq(kind, "effect") {
                    "set_flag:, set_path:, start_quest:, complete_quest:"
                } else {
                    "known prefixes"
                };
                let a = concat("unknown ", kind);
                let b = concat(a.as_str(), " prefix (expected ");
                let c = concat(b.as_str(), expected);
                let d = concat(c.as_str(), "): ");
                let q = debug_str(input.as_str());
                concat(d.as_str(), q.as_str())
            },
        }
    }
}

proof fn lemma_condition_error_text(input: Seq<char>, r: Result<DialogueCondition, DialogueParseError>)
    requires
        parsed_condition(input, r),
    ensures
        r matches Err(e) ==> parse_error_text(e) == prefix_error_text(
            input,
            "condition"@,
            condition_prefixes(),
        ),
{
}

proof fn lemma_effect_error_text(input: Seq<char>, r: Result<DialogueEffect, DialogueParseError>)
    requires
        parsed_effect(input, r),
    ensures
        r matches Err(e) ==> parse_error_text(e) == prefix_error_text(
            input,
            "effect"@,
            effect_prefixes(),
        ),
{
}

/// JSON shape of a branch: optional condition, next node id.
pub struct BranchSerde {
    pub condition: Option<String>,
    pub next: String,
}

/// JSON shape of a node: optional `line` and/or `lines` (`line` wins), next, branches, effects.
pub struct NodeSerde {
    pub line: Option<String>,
    pub lines: Vec<String>,
    pub next: Option<String>,
    pub branches: Vec<BranchSerde>,
    pub effects: Vec<String>,
}

/// JSON shape of a conversation file.
pub struct ConversationJson {
    pub start: String,
    pub nodes: Vec<(String, NodeSerde)>,
    pub require_state: Option<String>,
    pub default_line: Option<String>,
}

/// Whether a condition string reads as a condition (`Found`).
pub open spec fn reads_as_condition(t: Seq<char>) -> bool {
    prefix_match(t, condition_prefixes()) is Found
}

/// Whether an effect string reads as an effect (`Found`).
pub open spec fn reads_as_effect(t: Seq<char>) -> bool {
    prefix_match(t, effect_prefixes()) is Found
}

/// `c` is the condition that the (already trimmed, non-empty) text `t` reads as.
pub open spec fn condition_read(t: Seq<char>, c: DialogueCondition) -> bool {
    match prefix_match(t, condition_prefixes()) {
        PrefixMatch::Found(i, p) => condition_parts(c) == (i, p),
        _ => false,
    }
}

/// The error message for `require_state` text `s`, if it fails.
pub open spec fn require_state_error(raw: Option<String>) -> Option<Seq<char>> {
    match raw {
        None => None,
        Some(s) => {
            let t = trim_view(s@);
            if t.len() == 0 || reads_as_condition(t) {
                None
            } else {
                Some("require_state: "@ + prefix_error_text(t, "condition"@, condition_prefixes())
                    + " (input: "@ + debug_str_view(s@) + ")"@)
            }
        },
    }
}

/// The error message for branch `index` of node `node_id`, if its condition fails.
pub open spec fn branch_error(node_id: Seq<char>, index: nat, b: BranchSerde) -> Option<Seq<char>> {
    match b.condition {
        None => None,
        Some(s) => {
            let t = trim_view(s@);
            if t.len() == 0 || reads_as_condition(t) {
                None
            } else {
                Some("nodes["@ + node_id + "].branches["@ + decimal_view(index) + "].condition: "@
                    + prefix_error_text(t, "condition"@, condition_prefixes()) + " (input: "@
                    + debug_str_view(s@) + ")"@)
            }
        },
    }
}

/// The error of the first failing branch at or after `i`.
pub open spec fn branches_error_from(node_id: Seq<char>, bs: Seq<BranchSerde>, i: int) -> Option<
    Seq<char>,
>
    decreases bs.len() - i,
{
    if i < 0 || i >= bs.len() {
        None
    } else {
        match branch_error(node_id, i as nat, bs[i]) {
            Some(m) => Some(m),
            None => branches_error_from(node_id, bs, i + 1),
        }
    }
}

/// The error for effect `index` of node `node_id`, if it fails to parse.
pub open spec fn effect_error(node_id: Seq<char>, index: nat, s: String) -> Option<Seq<char>> {
    let t = trim_view(s@);
    if reads_as_effect(t) {
        None
    } else {
        Some("nodes["@ + node_id + "].effects["@ + decimal_view(index) + "]: "@ + prefix_error_text(
            t,
            "effect"@,
            effect_prefixes(),
        ) + " (input: "@ + debug_str_view(s@) + ")"@)
    }
}

/// The error of the first failing effect at or after `i`.
pub open spec fn effects_error_from(node_id: Seq<char>, es: Seq<String>, i: int) -> Option<Seq<char>>
    decreases es.len() - i,
{
    if i < 0 || i >= es.len() {
        None
    } else {
        match effect_error(node_id, i as nat, es[i]) {
            Some(m) => Some(m),
            None => effects_error_from(node_id, es, i + 1),
        }
    }
}

/// The first error of a node: its branches first, then its effects.
pub open spec fn node_error(node_id: Seq<char>, n: NodeSerde) -> Option<Seq<char>> {
    match branches_error_from(node_id, n.branches@, 0) {
        Some(m) => Some(m),
        None => effects_error_from(node_id, n.effects@, 0),
    }
}

/// The first error of the nodes at or after `i`.
pub open spec fn nodes_error_from(ns: Seq<(String, NodeSerde)>, i: int) -> Option<Seq<char>>
    decreases ns.len() - i,
{
    if i < 0 || i >= ns.len() {
        None
    } else {
        match node_error(ns[i].0@, ns[i].1) {
            Some(m) => Some(m),
            None => nodes_error_from(ns, i + 1),
        }
    }
}

/// The first error of a whole conversation file: `require_state`, then the nodes in order.
pub open spec fn conversation_error(j: ConversationJson) -> Option<Seq<char>> {
    match require_state_error(j.require_state) {
        Some(m) => Some(m),
        None => nodes_error_from(j.nodes@, 0),
    }
}

/// `b` is the branch read from JSON branch `raw`.
pub open spec fn branch_read(raw: BranchSerde, b: Branch) -> bool {
    &&& b.next@ == raw.next@
    &&& match raw.condition {
        None => b.condition is None,
        Some(s) => {
            let t = trim_view(s@);
            if t.len() == 0 {
                b.condition is None
            } else {
                b.condition matches Some(c) && condition_read(t, c)
            }
        },
    }
}

/// `e` is the effect that effect string `s` reads as.
pub open spec fn effect_read(s: String, e: DialogueEffect) -> bool {
    match prefix_match(trim_view(s@), effect_prefixes()) {
        PrefixMatch::Found(i, p) => effect_parts(e) == (i, p),
        _ => false,
    }
}

/// `n` is the node read from JSON node `raw`.
pub open spec fn node_read(raw: NodeSerde, n: Node) -> bool {
    &&& names(n.lines@) == match raw.line {
        Some(l) => seq![l@],
        None => names(raw.lines@),
    }
    &&& opt_view(n.next) == opt_view(raw.next)
    &&& n.branches@.len() == raw.branches@.len()
    &&& forall|i: int| 0 <= i < n.branches@.len() ==> branch_read(raw.branches@[i], n.branches@[i])
    &&& n.effects@.len() == raw.effects@.len()
    &&& forall|i: int| 0 <= i < n.effects@.len() ==> effect_read(raw.effects@[i], n.effects@[i])
}

/// `c` is the conversation read from JSON `j` (which has no error).
pub open spec fn conversation_read(j: ConversationJson, c: Conversation) -> bool {
    &&& c.start@ == j.start@
    &&& opt_view(c.default_line) == opt_view(j.default_line)
    &&& match j.require_state {
        None => c.require_state is None,
        Some(s) => {
            let t = trim_view(s@);
            if t.len() == 0 {
                c.require_state is None
            } else {
                c.require_state matches Some(cond) && condition_read(t, cond)
            }
        },
    }
    &&& c.nodes@.len() == j.nodes@.len()
    &&& forall|i: int|
        0 <= i < c.nodes@.len() ==> c.nodes@[i].0@ == j.nodes@[i].0@ && node_read(
            j.nodes@[i].1,
            c.nodes@[i].1,
        )
}

/// Read `require_state`: missing or blank gives no gate.
fn parse_optional_require_state(raw: &Option<String>) -> (r: Result<
    Option<DialogueCondition>,
    ConversationLoadError,
>)
    ensures
        match r {
            Ok(g) => require_state_error(*raw) is None && match *raw {
                None => g is None,
                Some(s) => {
                    let t = trim_view(s@);
                    if t.len() == 0 {
                        g is None
                    } else {
                        g matches Some(cond) && condition_read(t, cond)
                    }
                },
            },
            Err(ConversationLoadError::Dialogue(m)) => require_state_error(*raw) == Some(m@),
            Err(ConversationLoadError::Json(_)) => false,
        },
{
    let s = match raw {
        None => return Ok(None),
        Some(s) => s,
    };
    let t = trim(s.as_str());
    if t.is_empty() {
        return Ok(None);
    }
    let parsed = DialogueCondition::parse(t);
    proof {
        lemma_trim_idempotent(s@);
        lemma_condition_error_text(t@, parsed);
    }
    match parsed {
        Ok(c) => Ok(Some(c)),
        Err(e) => {
            let m = e.message();
            let a = concat("require_state: ", m.as_str());
            let b = concat(a.as_str(), " (input: ");
            let q = debug_str(s.as_str());
            let c = concat(b.as_str(), q.as_str());
            Err(ConversationLoadError::Dialogue(concat(c.as_str(), ")")))
        },
    }
}

/// Read branch `index` of node `node_id`.
fn parse_branch(node_id: &str, index: usize, b: &BranchSerde) -> (r: Result<Branch, ConversationLoadError>)
    ensures
        match r {
            Ok(br) => branch_error(node_id@, index as nat, *b) is None && branch_read(*b, br),
            Err(ConversationLoadError::Dialogue(m)) => branch_error(node_id@, index as nat, *b)
                == Some(m@),
            Err(ConversationLoadError::Json(_)) => false,
        },
{
    let condition = match &b.condition {
        None => None,
        Some(s) => {
            let t = trim(s.as_str());
            if t.is_empty() {
                None
            } else {
                let parsed = DialogueCondition::parse(t);
                proof {
                    lemma_trim_idempotent(s@);
                    lemma_condition_error_text(t@, parsed);
                }
                match parsed {
                    Ok(c) => Some(c),
                    Err(e) => {
                        let m = e.message();
                        let p1 = concat("nodes[", node_id);
                        let p2 = concat(p1.as_str(), "].branches[");
                        let ix = usize_text(index);
                        let p3 = concat(p2.as_str(), ix.as_str());
                        let p4 = concat(p3.as_str(), "].condition: ");
                        let p5 = concat(p4.as_str(), m.as_str());
                        let p6 = concat(p5.as_str(), " (input: ");
                        let q = debug_str(s.as_str());
                        let p7 = concat(p6.as_str(), q.as_str());
                        return Err(ConversationLoadError::Dialogue(concat(p7.as_str(), ")")));
                    },
                }
            }
        },
    };
    Ok(Branch { condition, next: owned(b.next.as_str()) })
}

/// Read the effects of node `node_id`, stopping at the first that fails.
fn parse_node_effects(node_id: &str, effects: &Vec<String>) -> (r: Result<
    Vec<DialogueEffect>,
    ConversationLoadError,
>)
    ensures
        match r {
            Ok(es) => effects_error_from(node_id@, effects@, 0) is None && es@.len() == effects@.len()
                && forall|i: int| 0 <= i < es@.len() ==> effect_read(effects@[i], es@[i]),
            Err(ConversationLoadError::Dialogue(m)) => effects_error_from(node_id@, effects@, 0)
                == Some(m@),
            Err(ConversationLoadError::Json(_)) => false,
        },
{
    let mut out: Vec<DialogueEffect> = Vec::new();
    let mut i: usize = 0;
    while i < effects.len()
        invariant
            i <= effects.len(),
            out@.len() == i,
            forall|k: int| 0 <= k < i ==> effect_read(effects@[k], out@[k]),
            effects_error_from(node_id@, effects@, 0) == effects_error_from(node_id@, effects@, i as int),
        decreases effects.len() - i,
    {
        let s = &effects[i];
        let t = trim(s.as_str());
        let parsed = DialogueEffect::parse(t);
        proof {
            lemma_trim_idempotent(s@);
            lemma_effect_error_text(t@, parsed);
        }
        match parsed {
            Ok(e) => {
                out.push(e);
            },
            Err(e) => {
                let m = e.message();
                let p1 = concat("nodes[", node_id);
                let p2 = concat(p1.as_str(), "].effects[");
                let ix = usize_text(i);
                let p3 = concat(p2.as_str(), ix.as_str());
                let p4 = concat(p3.as_str(), "]: ");
                let p5 = concat(p4.as_str(), m.as_str());
                let p6 = concat(p5.as_str(), " (input: ");
                let q = debug_str(s.as_str());
                let p7 = concat(p6.as_str(), q.as_str());
                return Err(ConversationLoadError::Dialogue(concat(p7.as_str(), ")")));
            },
        }
        i = i + 1;
    }
    Ok(out)
}

/// Read the branches of node `node_id`, stopping at the first that fails.
fn parse_node_branches(node_id: &str, branches: &Vec<BranchSerde>) -> (r: Result<
    Vec<Branch>,
    ConversationLoadError,
>)
    ensures
        match r {
            Ok(bs) => branches_error_from(node_id@, branches@, 0) is None && bs@.len()
                == branches@.len() && forall|i: int|
                0 <= i < bs@.len() ==> branch_read(branches@[i], bs@[i]),
            Err(ConversationLoadError::Dialogue(m)) => branches_error_from(node_id@, branches@, 0)
                == Some(m@),
            Err(ConversationLoadError::Json(_)) => false,
        },
{
    let mut out: Vec<Branch> = Vec::new();
    let mut i: usize = 0;
    while i < branches.len()
        invariant
            i <= branches.len(),
            out@.len() == i,
            forall|k: int| 0 <= k < i ==> branch_read(branches@[k], out@[k]),
            branches_error_from(node_id@, branches@, 0) == branches_error_from(
                node_id@,
                branches@,
                i as int,
            ),
        decreases branches.len() - i,
    {
        let b = parse_branch(node_id, i, &branches[i]);
        match b {
            Ok(b) => out.push(b),
            Err(e) => return Err(e),
        }
        i = i + 1;
    }
    Ok(out)
}

/// Copy a list of strings.
fn copy_lines(v: &Vec<String>) -> (r: Vec<String>)
    ensures
        names(r@) == names(v@),
{
    let mut r: Vec<String> = Vec::new();
    let mut i: usize = 0;
    while i < v.len()
        invariant
            i <= v.len(),
            names(r@) == names(v@).take(i as int),
        decreases v.len() - i,
    {
        let ghost r0 = r@;
        let o = owned(v[i].as_str());
        r.push(o);
        proof {
            crate::text::lemma_names_push(r0, o);
            assert(names(r@) =~= names(v@).take(i + 1));
        }
        i = i + 1;
    }
    assert(names(v@).take(i as int) =~= names(v@));
    r
}

/// Copy an optional string.
fn copy_opt(o: &Option<String>) -> (r: Option<String>)
    ensures
        opt_view(r) == opt_view(*o),
{
    match o {
        Some(s) => Some(owned(s.as_str())),
        None => None,
    }
}

impl Conversation {
    /// Build a conversation from its JSON shape. Unknown condition/effect prefixes (and empty
    /// payloads) fail the load with a message naming the first failing place.
    pub fn from_raw(j: &ConversationJson) -> (r: Result<Self, ConversationLoadError>)
        ensures
            match r {
                Ok(c) => conversation_error(*j) is None && conversation_read(*j, c),
                Err(ConversationLoadError::Dialogue(m)) => conversation_error(*j) == Some(m@),
                Err(ConversationLoadError::Json(_)) => false,
            },
    {
        let require_state = match parse_optional_require_state(&j.require_state) {
            Ok(g) => g,
            Err(e) => return Err(e),
        };
        let mut nodes: Vec<(String, Node)> = Vec::new();
        let mut i: usize = 0;
        while i < j.nodes.len()
            invariant
                i <= j.nodes.len(),
                nodes@.len() == i,
                forall|k: int|
                    0 <= k < i ==> nodes@[k].0@ == j.nodes@[k].0@ && node_read(
                        j.nodes@[k].1,
                        nodes@[k].1,
                    ),
                require_state_error(j.require_state) is None,
                nodes_error_from(j.nodes@, 0) == nodes_error_from(j.nodes@, i as int),
            decreases j.nodes.len() - i,
        {
            let id = j.nodes[i].0.as_str();
            let raw = &j.nodes[i].1;
            let lines = match &raw.line {
                Some(l) => {
                    let mut v: Vec<String> = Vec::new();
                    v.push(owned(l.as_str()));
                    assert(names(v@) =~= seq![l@]);
                    v
                },
                None => copy_lines(&raw.lines),
            };
            let branches = match parse_node_branches(id, &raw.branches) {
                Ok(b) => b,
                Err(e) => return Err(e),
            };
            let effects = match parse_node_effects(id, &raw.effects) {
                Ok(e) => e,
                Err(e) => return Err(e),
            };
            let node = Node { lines, next: copy_opt(&raw.next), branches, effects };
            nodes.push((owned(id), node));
            i = i + 1;
        }
        Ok(
            Conversation {
                start: owned(j.start.as_str()),
                nodes,
                require_state,
                default_line: copy_opt(&j.default_line),
            },
        )
    }
}

} // verus!
