//! Dialogue: conversation trees, resolving the current line, advancing with effects.
//!
//! Conversations come from `assets/dialogue/{conversation_id}.json` (read in the binary);
//! [`ConversationCache`] keeps loaded and generated ones by id. Story state drives branch
//! conditions and receives node effects on advance.

pub mod tree;

pub use tree::{
    Branch, Conversation, DialogueCondition, DialogueEffect, DialogueParseError, Node,
};

use vstd::prelude::*;

use crate::state::world::{WorldState, WorldStateView};
use crate::text::{owned, str_eq, trim, trim_view};
use tree::{
    branch_holds, condition_holds, effects_result, first_branch_from, lookup_node, next_of,
    node_lines_view, parsed_condition,
    PrefixMatch, prefix_match, condition_prefixes,
};

verus! {

/// Result of advancing dialogue: next node, line index within that node, and whether the
/// conversation ended.
pub struct AdvanceResult {
    pub node_id: String,
    pub line_index: u32,
    pub finished: bool,
}

/// Where advancing from line `li` of node `node` in `w` leads: node id, line index, finished,
/// and the story state after the node's effects.
pub open spec fn advance_view(conv: Conversation, node: Seq<char>, li: u32, w: WorldStateView) -> (
    Seq<char>,
    u32,
    bool,
    WorldStateView,
) {
    let count = node_lines_view(conv, node).len() as u32;
    if li + 1 < count {
        (node, (li + 1) as u32, false, w)
    } else {
        match lookup_node(conv, node) {
            None => (node, 0, true, w),
            Some(n) => {
                let w2 = effects_result(n.effects@, w);
                match next_of(n, w2) {
                    Some(id) => (id, 0, false, w2),
                    None => (node, 0, true, w2),
                }
            },
        }
    }
}

proof fn lemma_first_branch_is_first_match(bs: Seq<Branch>, w: WorldStateView, i: int, k: int)
    requires
        0 <= i <= k < bs.len(),
        branch_holds(bs[k], w),
        forall|j: int| i <= j < k ==> !branch_holds(#[trigger] bs[j], w),
    ensures
        first_branch_from(bs, w, i) == Some(bs[k].next@),
    decreases k - i,
{
    if i < k {
        lemma_first_branch_is_first_match(bs, w, i + 1, k);
    }
}

proof fn lemma_no_branch_matches(bs: Seq<Branch>, w: WorldStateView, i: int)
    requires
        0 <= i,
        forall|j: int| i <= j < bs.len() ==> !branch_holds(#[trigger] bs[j], w),
    ensures
        first_branch_from(bs, w, i) is None,
    decreases bs.len() - i,
{
    if i < bs.len() {
        lemma_no_branch_matches(bs, w, i + 1);
    }
}

/// What advancing does, from the node's lines, effects, `next` and branches. Before the last
/// line it moves to the next line and changes nothing. Past the last line of an existing
/// node, the node's effects are applied in order, and then the next node is chosen in the
/// story state *after* those effects: the node's `next` when set, else the target of the
/// first branch whose condition holds (or that has none) in that state; when no branch
/// matches the conversation is finished, on the same node. (A node's line count fits the
/// `u32` line index.)
pub proof fn law_advance_chooses_after_effects(conv: Conversation, node: Seq<char>, li: u32, w: WorldStateView, k: int)
    requires
        node_lines_view(conv, node).len() <= u32::MAX,
    ensures
        ({
            let r = advance_view(conv, node, li, w);
            let count = node_lines_view(conv, node).len();
            &&& li + 1 < count ==> r == (node, (li + 1) as u32, false, w)
            &&& li + 1 >= count ==> match lookup_node(conv, node) {
                None => r == (node, 0u32, true, w),
                Some(n) => {
                    let w2 = effects_result(n.effects@, w);
                    let bs = n.branches@;
                    &&& r.3 == w2
                    &&& n.next matches Some(x) ==> r == (x@, 0u32, false, w2)
                    &&& n.next is None && 0 <= k < bs.len() && branch_holds(bs[k], w2) && (forall|j: int|
                        0 <= j < k ==> !branch_holds(#[trigger] bs[j], w2)) ==> r == (bs[k].next@, 0u32, false, w2)
                    &&& n.next is None && (forall|j: int| 0 <= j < bs.len() ==> !branch_holds(#[trigger] bs[j], w2))
                        ==> r == (node, 0u32, true, w2)
                },
            }
        }),
{
    let count = node_lines_view(conv, node).len();
    if li + 1 >= count {
        if let Some(n) = lookup_node(conv, node) {
            let w2 = effects_result(n.effects@, w);
            let bs = n.branches@;
            if n.next is None {
                if 0 <= k < bs.len() && branch_holds(bs[k], w2) && (forall|j: int|
                    0 <= j < k ==> !branch_holds(#[trigger] bs[j], w2)) {
                    lemma_first_branch_is_first_match(bs, w2, 0, k);
                }
                if forall|j: int| 0 <= j < bs.len() ==> !branch_holds(#[trigger] bs[j], w2) {
                    lemma_no_branch_matches(bs, w2, 0);
                }
            }
        }
    }
}

/// Most empty nodes `entry_point` walks through before giving up.
pub const MAX_EMPTY_HOPS: u32 = 64;

/// Walk from node `node`, line `li`, having made `hops` hops: the first node with a line to
/// show (or `None`), and the story state after the effects of the nodes passed through.
pub open spec fn entry_from(
    conv: Conversation,
    node: Seq<char>,
    li: u32,
    w: WorldStateView,
    hops: nat,
) -> (Option<(Seq<char>, u32)>, WorldStateView)
    decreases MAX_EMPTY_HOPS + 1 - hops,
{
    if node_lines_view(conv, node).len() > 0 {
        (Some((node, li)), w)
    } else if hops + 1 > MAX_EMPTY_HOPS {
        (None, w)
    } else {
        let (n2, l2, fin, w2) = advance_view(conv, node, li, w);
        if fin {
            (None, w2)
        } else {
            entry_from(conv, n2, l2, w2, hops + 1)
        }
    }
}

/// Whether `conv`'s gate lets it open in `w`.
pub open spec fn gate_open(conv: Conversation, w: WorldStateView) -> bool {
    match conv.require_state {
        None => true,
        Some(c) => condition_holds(c, w),
    }
}

/// The first node to show when opening `conv` in `w`, with the story state after.
pub open spec fn entry_view(conv: Conversation, w: WorldStateView) -> (
    Option<(Seq<char>, u32)>,
    WorldStateView,
) {
    if !gate_open(conv, w) {
        (None, w)
    } else {
        entry_from(conv, conv.start@, 0, w, 0)
    }
}

proof fn lemma_entry_from_shows_a_line(conv: Conversation, node: Seq<char>, w: WorldStateView, hops: nat)
    ensures
        entry_from(conv, node, 0, w, hops).0 matches Some((n, l)) ==> l == 0 && node_lines_view(conv, n).len() > 0,
    decreases MAX_EMPTY_HOPS + 1 - hops,
{
    if node_lines_view(conv, node).len() == 0 && hops + 1 <= MAX_EMPTY_HOPS {
        let (n2, l2, fin, w2) = advance_view(conv, node, 0, w);
        if !fin {
            assert(l2 == 0);
            lemma_entry_from_shows_a_line(conv, n2, w2, hops + 1);
        }
    }
}

/// Opening a conversation lands on a line: when [`entry_point`] gives a node, it is the first
/// line of a node that has lines.
pub proof fn law_entry_shows_a_line(conv: Conversation, w: WorldStateView)
    ensures
        entry_view(conv, w).0 matches Some((n, l)) ==> l == 0 && node_lines_view(conv, n).len() > 0,
{
    if gate_open(conv, w) {
        lemma_entry_from_shows_a_line(conv, conv.start@, w, 0);
    }
}

/// `ids` is a walk through empty router nodes of `conv`: each node before the last exists,
/// has no lines, and leads (after its effects, from story state `ws[j]` to `ws[j + 1]`) to
/// the next id, and the last node has a line.
pub open spec fn router_walk(conv: Conversation, ids: Seq<Seq<char>>, ws: Seq<WorldStateView>) -> bool {
    &&& ids.len() >= 1
    &&& ws.len() == ids.len()
    &&& forall|j: int| 0 <= j < ids.len() - 1 ==> {
        &&& #[trigger] lookup_node(conv, ids[j]) is Some
        &&& lookup_node(conv, ids[j]).unwrap().lines@.len() == 0
        &&& ws[j + 1] == effects_result(lookup_node(conv, ids[j]).unwrap().effects@, ws[j])
        &&& next_of(lookup_node(conv, ids[j]).unwrap(), ws[j + 1]) == Some(ids[j + 1])
    }
    &&& node_lines_view(conv, ids.last()).len() > 0
}

proof fn lemma_walk_lands(conv: Conversation, ids: Seq<Seq<char>>, ws: Seq<WorldStateView>, j: int)
    requires
        router_walk(conv, ids, ws),
        ids.len() - 1 <= 64,
        0 <= j < ids.len(),
    ensures
        entry_from(conv, ids[j], 0, ws[j], j as nat) == (Some((ids.last(), 0u32)), ws.last()),
    decreases ids.len() - j,
{
    if j < ids.len() - 1 {
        let n = lookup_node(conv, ids[j]).unwrap();
        assert(lookup_node(conv, ids[j]) is Some);
        assert(node_lines_view(conv, ids[j]).len() == 0);
        assert(advance_view(conv, ids[j], 0, ws[j]) == (ids[j + 1], 0u32, false, ws[j + 1]));
        lemma_walk_lands(conv, ids, ws, j + 1);
    }
}

/// Opening a conversation whose gate is open walks through up to 64 empty router nodes: when
/// its start reaches a node with lines through a walk of at most 64 empty nodes (each
/// applying its effects and following its next node or first matching branch), the
/// conversation opens on that node's first line, with the story state those effects leave.
pub proof fn law_entry_walks_router_nodes(conv: Conversation, w: WorldStateView, ids: Seq<Seq<char>>, ws: Seq<WorldStateView>)
    requires
        gate_open(conv, w),
        router_walk(conv, ids, ws),
        ids[0] == conv.start@,
        ws[0] == w,
        ids.len() - 1 <= 64,
    ensures
        entry_view(conv, w) == (Some((ids.last(), 0u32)), ws.last()),
{
    lemma_walk_lands(conv, ids, ws, 0);
}

proof fn lemma_walk_gives_up(conv: Conversation, ids: Seq<Seq<char>>, ws: Seq<WorldStateView>, j: int)
    requires
        router_walk(conv, ids, ws),
        ids.len() - 1 > 64,
        0 <= j <= 64,
    ensures
        entry_from(conv, ids[j], 0, ws[j], j as nat) == (None::<(Seq<char>, u32)>, ws[64]),
    decreases 64 - j,
{
    assert(lookup_node(conv, ids[j]) is Some);
    assert(node_lines_view(conv, ids[j]).len() == 0);
    if j < 64 {
        assert(advance_view(conv, ids[j], 0, ws[j]) == (ids[j + 1], 0u32, false, ws[j + 1]));
        lemma_walk_gives_up(conv, ids, ws, j + 1);
    }
}

/// More than 64 empty router nodes in a row make opening give up: when the start leads
/// through 65 or more empty nodes, the conversation does not open (`None`), and the story
/// state keeps the effects of the 64 nodes walked through.
pub proof fn law_entry_gives_up_after_64_router_nodes(conv: Conversation, w: WorldStateView, ids: Seq<Seq<char>>, ws: Seq<WorldStateView>)
    requires
        gate_open(conv, w),
        router_walk(conv, ids, ws),
        ids[0] == conv.start@,
        ws[0] == w,
        ids.len() - 1 > 64,
    ensures
        entry_view(conv, w) == (None::<(Seq<char>, u32)>, ws[64]),
{
    lemma_walk_gives_up(conv, ids, ws, 0);
}

/// A conversation whose story gate does not hold in `w` does not open, and the story state
/// is untouched.
pub proof fn law_entry_closed_gate(conv: Conversation, w: WorldStateView)
    requires
        conv.require_state matches Some(c) && !condition_holds(c, w),
    ensures
        entry_view(conv, w) == (None::<(Seq<char>, u32)>, w),
{
}

/// `ids` walks through empty router nodes as in [`router_walk`], except that its last node is
/// a dead end: it has no lines and either does not exist or, after its effects (story state
/// `ws.last()` to `end`), has neither a next node nor a matching branch.
pub open spec fn dead_end_walk(conv: Conversation, ids: Seq<Seq<char>>, ws: Seq<WorldStateView>, end: WorldStateView) -> bool {
    &&& ids.len() >= 1
    &&& ws.len() == ids.len()
    &&& forall|j: int| 0 <= j < ids.len() - 1 ==> {
        &&& #[trigger] lookup_node(conv, ids[j]) is Some
        &&& lookup_node(conv, ids[j]).unwrap().lines@.len() == 0
        &&& ws[j + 1] == effects_result(lookup_node(conv, ids[j]).unwrap().effects@, ws[j])
        &&& next_of(lookup_node(conv, ids[j]).unwrap(), ws[j + 1]) == Some(ids[j + 1])
    }
    &&& match lookup_node(conv, ids.last()) {
        None => end == ws.last(),
        Some(n) => n.lines@.len() == 0 && end == effects_result(n.effects@, ws.last()) && next_of(n, end) is None,
    }
}

proof fn lemma_walk_dead_end(conv: Conversation, ids: Seq<Seq<char>>, ws: Seq<WorldStateView>, end: WorldStateView, j: int)
    requires
        dead_end_walk(conv, ids, ws, end),
        ids.len() <= 64,
        0 <= j < ids.len(),
    ensures
        entry_from(conv, ids[j], 0, ws[j], j as nat) == (None::<(Seq<char>, u32)>, end),
    decreases ids.len() - j,
{
    assert(node_lines_view(conv, ids[j]).len() == 0);
    if j < ids.len() - 1 {
        assert(lookup_node(conv, ids[j]) is Some);
        assert(advance_view(conv, ids[j], 0, ws[j]) == (ids[j + 1], 0u32, false, ws[j + 1]));
        lemma_walk_dead_end(conv, ids, ws, end, j + 1);
    }
}

/// Opening a conversation whose start leads, through at most 63 empty router nodes, to a
/// dead end (an empty node that is missing or leads nowhere after its effects) does not
/// open it (`None`), and the story state keeps the effects of the nodes walked through.
pub proof fn law_entry_dead_end(conv: Conversation, w: WorldStateView, ids: Seq<Seq<char>>, ws: Seq<WorldStateView>, end: WorldStateView)
    requires
        gate_open(conv, w),
        dead_end_walk(conv, ids, ws, end),
        ids[0] == conv.start@,
        ws[0] == w,
        ids.len() <= 64,
    ensures
        entry_view(conv, w) == (None::<(Seq<char>, u32)>, end),
{
    lemma_walk_dead_end(conv, ids, ws, end, 0);
}

/// Whether a gate string is missing, blank, or parses to a condition that holds in `w`.
pub open spec fn gate_text_holds(cond: Option<Seq<char>>, w: WorldStateView) -> bool {
    match cond {
        None => true,
        Some(s) => {
            let t = trim_view(s);
            t.len() == 0 || match prefix_match(t, condition_prefixes()) {
                PrefixMatch::Found(i, p) => parts_hold(i, p, w),
                _ => false,
            }
        },
    }
}

/// Whether the condition of variant `i` (table order: flag, path, quest active, quest
/// complete) on name `p` holds in `w`.
pub open spec fn parts_hold(i: int, p: Seq<char>, w: WorldStateView) -> bool {
    if i == 0 {
        w.flags.contains(p)
    } else if i == 1 {
        w.path == Some(p)
    } else if i == 2 {
        w.active_quests.contains(p)
    } else {
        w.completed_quests.contains(p)
    }
}

/// Current line to display for (conversation, node, line index), if there is one.
pub fn current_display<'a>(conv: &'a Conversation, node_id: &str, line_index: u32) -> (r: Option<
    &'a str,
>)
    ensures
        match r {
            Some(s) => line_index < node_lines_view(*conv, node_id@).len() && s@ == node_lines_view(
                *conv,
                node_id@,
            )[line_index as int]@,
            None => line_index >= node_lines_view(*conv, node_id@).len(),
        },
{
    let lines = conv.node_lines(node_id);
    let i = line_index as usize;
    if i < lines.len() {
        Some(lines[i].as_str())
    } else {
        None
    }
}

/// Whether `conv`'s `require_state` holds (or there is none).
pub fn state_satisfied(conv: &Conversation, world_state: &WorldState) -> (r: bool)
    ensures
        r == gate_open(*conv, world_state@),
{
    match &conv.require_state {
        None => true,
        Some(c) => c.matches(world_state),
    }
}

/// True if `cond` is missing, blank, or a condition (same syntax as branch conditions) that
/// holds. Used for doors and other string-gated content; a string that does not parse is
/// treated as not satisfied.
pub fn world_state_satisfies(cond: Option<&str>, world_state: &WorldState) -> (r: bool)
    ensures
        r == gate_text_holds(
            match cond {
                Some(s) => Some(s@),
                None => None,
            },
            world_state@,
        ),
{
    let req = match cond {
        Some(r) => r,
        None => return true,
    };
    let req = trim(req);
    if req.is_empty() {
        return true;
    }
    let parsed = DialogueCondition::parse(req);
    proof {
        tree::lemma_trim_idempotent(req@);
    }
    match parsed {
        Ok(c) => {
            let r = c.matches(world_state);
            proof {
                lemma_parts_hold(c, world_state@);
            }
            r
        },
        Err(_) => false,
    }
}

proof fn lemma_parts_hold(c: DialogueCondition, w: WorldStateView)
    ensures
        condition_holds(c, w) == parts_hold(tree::condition_parts(c).0, tree::condition_parts(c).1, w),
{
}

/// Advance dialogue: the next line of the node if there is one; otherwise apply the node's
/// effects and go to its next node (`finished` when there is none or the node is missing).
pub fn advance(conv: &Conversation, node_id: &str, line_index: u32, world_state: &mut WorldState) -> (r:
    AdvanceResult)
    requires
        line_index < u32::MAX,
    ensures
        (r.node_id@, r.line_index, r.finished, final(world_state)@) == advance_view(
            *conv,
            node_id@,
            line_index,
            old(world_state)@,
        ),
{
    let count = conv.line_count(node_id) as u32;
    if line_index + 1 < count {
        return AdvanceResult { node_id: owned(node_id), line_index: line_index + 1, finished: false };
    }
    let node = match conv.get_node(node_id) {
        Some(n) => n,
        None => {
            return AdvanceResult { node_id: owned(node_id), line_index: 0, finished: true };
        },
    };
    let mut i: usize = 0;
    while i < node.effects.len()
        invariant
            i <= node.effects.len(),
            world_state@ == effects_result(node.effects@.take(i as int), old(world_state)@),
        decreases node.effects.len() - i,
    {
        node.effects[i].apply(world_state);
        proof {
            assert(node.effects@.take(i + 1).drop_last() =~= node.effects@.take(i as int));
        }
        i = i + 1;
    }
    assert(node.effects@.take(i as int) =~= node.effects@);
    let next_id = node.resolve_next(world_state);
    match next_id {
        Some(id) => AdvanceResult { node_id: id, line_index: 0, finished: false },
        None => AdvanceResult { node_id: owned(node_id), line_index: 0, finished: true },
    }
}

/// First node to show when opening a conversation: follows `start`, then auto-advances
/// through nodes with zero lines (router nodes that only have branches). `None` if the story condition is
/// not met, the tree ends before any line is shown, or more than [`MAX_EMPTY_HOPS`] empty nodes
/// follow each other.
pub fn entry_point(conv: &Conversation, world_state: &mut WorldState) -> (r: Option<(String, u32)>)
    ensures
        (
            match r {
                Some((n, l)) => Some((n@, l)),
                None => None,
            },
            final(world_state)@,
        ) == entry_view(*conv, old(world_state)@),
{
    if !state_satisfied(conv, world_state) {
        return None;
    }
    let mut node_id = owned(conv.start.as_str());
    let mut line_index: u32 = 0;
    let mut hops: u32 = 0;
    loop
        invariant
            hops <= MAX_EMPTY_HOPS,
            line_index == 0,
            entry_view(*conv, old(world_state)@) == entry_from(
                *conv,
                node_id@,
                line_index,
                world_state@,
                hops as nat,
            ),
        decreases MAX_EMPTY_HOPS - hops,
    {
        if conv.line_count(node_id.as_str()) > 0 {
            return Some((node_id, line_index));
        }
        hops = hops + 1;
        if hops > MAX_EMPTY_HOPS {
            return None;
        }
        let result = advance(conv, node_id.as_str(), line_index, world_state);
        if result.finished {
            return None;
        }
        node_id = result.node_id;
        line_index = result.line_index;
    }
}

/// Cache of loaded and generated conversations by id, so files are read once.
pub struct ConversationCache {
    cache: Vec<(String, Conversation)>,
}

/// Index of the first cache entry at or after `i` with id `id`.
pub open spec fn entry_index_from(es: Seq<(String, Conversation)>, id: Seq<char>, i: int) -> Option<
    int,
>
    decreases es.len() - i,
{
    if i < 0 || i >= es.len() {
        None
    } else if es[i].0@ == id {
        Some(i)
    } else {
        entry_index_from(es, id, i + 1)
    }
}

proof fn lemma_entry_index_range(es: Seq<(String, Conversation)>, id: Seq<char>, i: int)
    ensures
        entry_index_from(es, id, i) matches Some(j) ==> 0 <= i <= j < es.len() && es[j].0@ == id,
        entry_index_from(es, id, i) is None ==> forall|k: int|
            0 <= i <= k < es.len() ==> es[k].0@ != id,
    decreases es.len() - i,
{
    if 0 <= i < es.len() && es[i].0@ != id {
        lemma_entry_index_range(es, id, i + 1);
    }
}

proof fn lemma_entry_index_push(es: Seq<(String, Conversation)>, e: (String, Conversation), id: Seq<char>, i: int)
    requires
        0 <= i <= es.len(),
    ensures
        entry_index_from(es.push(e), id, i) == match entry_index_from(es, id, i) {
            Some(j) => Some(j),
            None => if e.0@ == id { Some(es.len() as int) } else { None },
        },
    decreases es.len() - i,
{
    if i < es.len() {
        assert(es.push(e)[i] == es[i]);
        if es[i].0@ != id {
            lemma_entry_index_push(es, e, id, i + 1);
        }
    } else {
        assert(es.push(e)[i] == e);
        assert(entry_index_from(es.push(e), id, i + 1) is None);
    }
}

impl ConversationCache {
    /// The conversation cached under `id`, if any.
    pub closed spec fn lookup(&self, id: Seq<char>) -> Option<Conversation> {
        match entry_index_from(self.cache@, id, 0) {
            Some(i) => Some(self.cache@[i].1),
            None => None,
        }
    }

    pub fn new() -> (r: Self)
        ensures
            forall|id: Seq<char>| r.lookup(id) is None,
    {
        ConversationCache { cache: Vec::new() }
    }

    fn find(&self, id: &str) -> (r: Option<usize>)
        ensures
            match r {
                Some(i) => i < self.cache@.len() && entry_index_from(self.cache@, id@, 0) == Some(
                    i as int,
                ),
                None => entry_index_from(self.cache@, id@, 0) is None,
            },
    {
        proof {
            lemma_entry_index_range(self.cache@, id@, 0);
        }
        let mut i: usize = 0;
        while i < self.cache.len()
            invariant
                i <= self.cache.len(),
                entry_index_from(self.cache@, id@, 0) == entry_index_from(self.cache@, id@, i as int),
            decreases self.cache.len() - i,
        {
            if str_eq(self.cache[i].0.as_str(), id) {
                return Some(i);
            }
            i = i + 1;
        }
        None
    }

    /// Whether a conversation is cached under `id`.
    pub fn contains(&self, id: &str) -> (r: bool)
        ensures
            r == self.lookup(id@) is Some,
    {
        self.find(id).is_some()
    }

    /// The conversation cached under `id`, without loading.
    pub fn get(&self, id: &str) -> (r: Option<&Conversation>)
        ensures
            match r {
                Some(c) => self.lookup(id@) == Some(*c),
                None => self.lookup(id@) is None,
            },
    {
        match self.find(id) {
            Some(i) => Some(&self.cache[i].1),
            None => None,
        }
    }

    /// Add `conv` under `id`; the cache must not hold `id` yet.
    fn push_new(&mut self, id: &str, conv: Conversation)
        requires
            old(self).lookup(id@) is None,
        ensures
            final(self).lookup(id@) == Some(conv),
            forall|k: Seq<char>| k != id@ ==> final(self).lookup(k) == old(self).lookup(k),
    {
        let ghost es = self.cache@;
        let e = (owned(id), conv);
        self.cache.push(e);
        proof {
            assert forall|k: Seq<char>| true implies #[trigger] entry_index_from(self.cache@, k, 0)
                == match entry_index_from(es, k, 0) {
                Some(j) => Some(j),
                None => if k == id@ { Some(es.len() as int) } else { None },
            } by {
                lemma_entry_index_push(es, e, k, 0);
            }
            lemma_entry_index_range(es, id@, 0);
            assert forall|k: Seq<char>| k != id@ implies final(self).lookup(k) == old(self).lookup(
                k,
            ) by {
                lemma_entry_index_range(es, k, 0);
                assert(entry_index_from(self.cache@, k, 0) == entry_index_from(es, k, 0));
            }
        }
    }

    /// The conversation cached under `id`; on a miss, `load(id)` is called once and a loaded
    /// conversation is cached. A miss that `load` cannot fill leaves the cache unchanged.
    pub fn get_or_load<F: FnOnce(&str) -> Option<Conversation>>(&mut self, id: &str, load: F) -> (r:
        Option<&Conversation>)
        requires
            call_requires(load, (id,)),
        ensures
            match old(self).lookup(id@) {
                Some(c) => r == Some(&c) && forall|k: Seq<char>|
                    final(self).lookup(k) == old(self).lookup(k),
                None => exists|loaded: Option<Conversation>|
                    {
                        &&& call_ensures(load, (id,), loaded)
                        &&& r == match loaded {
                            Some(c) => Some(&c),
                            None => None,
                        }
                        &&& final(self).lookup(id@) == loaded
                        &&& forall|k: Seq<char>| k != id@ ==> final(self).lookup(k) == old(self).lookup(k)
                    },
            },
    {
        match self.find(id) {
            Some(i) => Some(&self.cache[i].1),
            None => {
                let loaded = load(id);
                match loaded {
                    Some(conv) => {
                        self.push_new(id, conv);
                        proof {
                            lemma_entry_index_range(self.cache@, id@, 0);
                        }
                        let found = self.find(id);
                        match found {
                            Some(j) => Some(&self.cache[j].1),
                            None => None,
                        }
                    },
                    None => None,
                }
            },
        }
    }

    /// Cache a generated conversation under `id`, unless one is cached there already; returns
    /// the conversation now cached under `id`.
    pub fn insert_generated(&mut self, id: &str, conv: Conversation) -> (r: &Conversation)
        ensures
            match old(self).lookup(id@) {
                Some(c) => *r == c && forall|k: Seq<char>| final(self).lookup(k) == old(self).lookup(k),
                None => *r == conv && final(self).lookup(id@) == Some(conv) && forall|k: Seq<char>|
                    k != id@ ==> final(self).lookup(k) == old(self).lookup(k),
            },
    {
        if self.find(id).is_none() {
            self.push_new(id, conv);
        }
        match self.find(id) {
            Some(j) => &self.cache[j].1,
            None => {
                proof {
                    assert(false);
                }
                &self.cache[0].1
            },
        }
    }
}

} // verus!
