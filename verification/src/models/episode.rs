use vstd::prelude::*;

use crate::duplicate::{duplicate_opt, duplicate_vec, opt_view_of, Duplicate};
use crate::ident::{current_time_millis, generate_id, is_generated_id};
use crate::keyed::{
    find_by_key, key_index, keys_unique, lemma_key_index, lemma_key_index_push, lemma_key_index_update,
    lemma_removed, lemma_upserted, remove_by_key, removed, upsert_by_key, upserted, Keyed,
};
use crate::models::events::{TokenUsage, TurnTiming};
use crate::models::message::{
    lemma_views_push, lemma_views_update, plain_message, tool_response_message, views_of, Message,
    MessageView, Role, ToolCall, ToolCallView,
};
use crate::models::tool::{ToolExecutionResult, ToolResultView};
use crate::text::concat3;

verus! {

/// One turn of a conversation: a node of the episode's tree of turns.
#[derive(Debug)]
pub struct TurnNode {
    pub id: String,
    pub parent_id: Option<String>,
    pub children_ids: Vec<String>,
    pub user_message: Option<Message>,
    pub assistant_message: Option<Message>,
    pub tool_calls: Vec<ToolCall>,
    pub tool_results: Vec<ToolExecutionResult>,
    pub usage: Option<TokenUsage>,
    pub timing: Option<TurnTiming>,
    pub created_at: i64,
}

/// The mathematical content of a turn.
pub struct TurnNodeView {
    pub id: Seq<char>,
    pub parent_id: Option<Seq<char>>,
    pub children_ids: Seq<Seq<char>>,
    pub user_message: Option<MessageView>,
    pub assistant_message: Option<MessageView>,
    pub tool_calls: Seq<ToolCallView>,
    pub tool_results: Seq<ToolResultView>,
    pub usage: Option<TokenUsage>,
    pub timing: Option<TurnTiming>,
    pub created_at: i64,
}

impl View for TurnNode {
    type V = TurnNodeView;

    open spec fn view(&self) -> TurnNodeView {
        TurnNodeView {
            id: self.id@,
            parent_id: opt_view_of(self.parent_id),
            children_ids: views_of(self.children_ids@),
            user_message: opt_view_of(self.user_message),
            assistant_message: opt_view_of(self.assistant_message),
            tool_calls: views_of(self.tool_calls@),
            tool_results: views_of(self.tool_results@),
            usage: self.usage,
            timing: self.timing,
            created_at: self.created_at,
        }
    }
}

impl Clone for TurnNode {
    fn clone(&self) -> (r: Self)
        ensures
            r@ == self@,
    {
        TurnNode {
            id: self.id.clone(),
            parent_id: duplicate_opt(&self.parent_id),
            children_ids: duplicate_vec(&self.children_ids),
            user_message: duplicate_opt(&self.user_message),
            assistant_message: duplicate_opt(&self.assistant_message),
            tool_calls: duplicate_vec(&self.tool_calls),
            tool_results: duplicate_vec(&self.tool_results),
            usage: self.usage,
            timing: self.timing,
            created_at: self.created_at,
        }
    }
}

impl Duplicate for TurnNode {
    fn duplicate(&self) -> (r: Self) {
        self.clone()
    }
}

impl Keyed for TurnNode {
    open spec fn key_view(v: TurnNodeView) -> Seq<char> {
        v.id
    }

    fn key(&self) -> (k: &str) {
        self.id.as_str()
    }
}

/// A tool call waiting for a human decision.
#[derive(Debug)]
pub struct PendingApproval {
    pub turn_id: String,
    pub tool_call: ToolCall,
    pub created_at: i64,
}

/// The mathematical content of a pending approval.
pub struct PendingApprovalView {
    pub turn_id: Seq<char>,
    pub tool_call: ToolCallView,
    pub created_at: i64,
}

impl View for PendingApproval {
    type V = PendingApprovalView;

    open spec fn view(&self) -> PendingApprovalView {
        PendingApprovalView {
            turn_id: self.turn_id@,
            tool_call: self.tool_call@,
            created_at: self.created_at,
        }
    }
}

impl Clone for PendingApproval {
    fn clone(&self) -> (r: Self)
        ensures
            r@ == self@,
    {
        PendingApproval {
            turn_id: self.turn_id.clone(),
            tool_call: self.tool_call.clone(),
            created_at: self.created_at,
        }
    }
}

impl Duplicate for PendingApproval {
    fn duplicate(&self) -> (r: Self) {
        self.clone()
    }
}

impl Keyed for PendingApproval {
    /// Pending approvals are found again by the id of their tool call.
    open spec fn key_view(v: PendingApprovalView) -> Seq<char> {
        v.tool_call.id
    }

    fn key(&self) -> (k: &str) {
        self.tool_call.id.as_str()
    }
}

/// A metadata entry of an episode.
#[derive(Debug)]
pub struct MetadataEntry {
    pub key: String,
    pub value: String,
}

impl View for MetadataEntry {
    type V = (Seq<char>, Seq<char>);

    open spec fn view(&self) -> (Seq<char>, Seq<char>) {
        (self.key@, self.value@)
    }
}

impl Clone for MetadataEntry {
    fn clone(&self) -> (r: Self)
        ensures
            r@ == self@,
    {
        MetadataEntry { key: self.key.clone(), value: self.value.clone() }
    }
}

impl Duplicate for MetadataEntry {
    fn duplicate(&self) -> (r: Self) {
        self.clone()
    }
}

/// A conversation session: a tree of turns with an active leaf.
#[derive(Debug)]
pub struct Episode {
    pub id: String,
    pub model: String,
    pub system_prompt: Option<String>,
    pub root_node_id: Option<String>,
    pub active_leaf_id: Option<String>,
    /// The turns, each found by its id.
    pub nodes: Vec<TurnNode>,
    /// Tool calls waiting for approval, each found by the id of its tool call.
    pub pending_approvals: Vec<PendingApproval>,
    pub metadata: Vec<MetadataEntry>,
    pub created_at: i64,
    pub updated_at: i64,
}

/// The mathematical content of an episode.
pub struct EpisodeView {
    pub id: Seq<char>,
    pub model: Seq<char>,
    pub system_prompt: Option<Seq<char>>,
    pub root_node_id: Option<Seq<char>>,
    pub active_leaf_id: Option<Seq<char>>,
    pub nodes: Seq<TurnNodeView>,
    pub pending_approvals: Seq<PendingApprovalView>,
    pub metadata: Seq<(Seq<char>, Seq<char>)>,
    pub created_at: i64,
    pub updated_at: i64,
}

impl View for Episode {
    type V = EpisodeView;

    open spec fn view(&self) -> EpisodeView {
        EpisodeView {
            id: self.id@,
            model: self.model@,
            system_prompt: opt_view_of(self.system_prompt),
            root_node_id: opt_view_of(self.root_node_id),
            active_leaf_id: opt_view_of(self.active_leaf_id),
            nodes: views_of(self.nodes@),
            pending_approvals: views_of(self.pending_approvals@),
            metadata: views_of(self.metadata@),
            created_at: self.created_at,
            updated_at: self.updated_at,
        }
    }
}

impl Clone for Episode {
    fn clone(&self) -> (r: Self)
        ensures
            r@ == self@,
    {
        Episode {
            id: self.id.clone(),
            model: self.model.clone(),
            system_prompt: duplicate_opt(&self.system_prompt),
            root_node_id: duplicate_opt(&self.root_node_id),
            active_leaf_id: duplicate_opt(&self.active_leaf_id),
            nodes: duplicate_vec(&self.nodes),
            pending_approvals: duplicate_vec(&self.pending_approvals),
            metadata: duplicate_vec(&self.metadata),
            created_at: self.created_at,
            updated_at: self.updated_at,
        }
    }
}

impl Duplicate for Episode {
    fn duplicate(&self) -> (r: Self) {
        self.clone()
    }
}

impl Keyed for Episode {
    open spec fn key_view(v: EpisodeView) -> Seq<char> {
        v.id
    }

    fn key(&self) -> (k: &str) {
        self.id.as_str()
    }
}

/// The index of the turn with id `id`, or -1.
pub open spec fn node_index(nodes: Seq<TurnNodeView>, id: Seq<char>) -> int {
    key_index::<TurnNode>(nodes, id)
}

/// The messages a turn contributes to the history: the user message, the assistant
/// message, then one tool response per tool result.
pub open spec fn turn_messages(n: TurnNodeView) -> Seq<MessageView> {
    (match n.user_message {
        Some(m) => seq![m],
        None => Seq::empty(),
    }) + (match n.assistant_message {
        Some(m) => seq![m],
        None => Seq::empty(),
    }) + n.tool_results.map_values(
        |r: ToolResultView| tool_response_message(r.tool_call_id, r.output),
    )
}

/// The indices of the turns from `start` back towards the root, following parent links,
/// for at most `fuel` steps; a link to an unknown turn ends the chain.
pub open spec fn chain(nodes: Seq<TurnNodeView>, start: Option<Seq<char>>, fuel: nat) -> Seq<int>
    decreases fuel,
{
    match start {
        None => Seq::empty(),
        Some(id) => if fuel == 0 || node_index(nodes, id) < 0 {
            Seq::empty()
        } else {
            let k = node_index(nodes, id);
            seq![k] + chain(nodes, nodes[k].parent_id, (fuel - 1) as nat)
        },
    }
}

/// The messages of the turns of a chain, root first.
pub open spec fn msgs_along(nodes: Seq<TurnNodeView>, c: Seq<int>) -> Seq<MessageView>
    decreases c.len(),
{
    if c.len() == 0 {
        Seq::empty()
    } else {
        msgs_along(nodes, c.drop_first()) + turn_messages(nodes[c[0]])
    }
}

/// The messages along the path that ends at `start`, root first.
pub open spec fn path_messages(nodes: Seq<TurnNodeView>, start: Option<Seq<char>>) -> Seq<MessageView> {
    msgs_along(nodes, chain(nodes, start, nodes.len()))
}

/// The system prompt as the first message of a history, if there is one.
pub open spec fn system_prefix(system_prompt: Option<Seq<char>>) -> Seq<MessageView> {
    match system_prompt {
        Some(s) => seq![plain_message(Role::System, s)],
        None => Seq::empty(),
    }
}

/// The view of `parent` with `child` added as its last child.
pub open spec fn with_child_id(n: TurnNodeView, child: Seq<char>) -> TurnNodeView {
    TurnNodeView { children_ids: n.children_ids.push(child), ..n }
}

/// `nodes` with `child` recorded as a child of the turn `parent`, when that turn exists.
pub open spec fn add_child(nodes: Seq<TurnNodeView>, parent: Option<Seq<char>>, child: Seq<char>) -> Seq<TurnNodeView> {
    match parent {
        Some(p) => if node_index(nodes, p) >= 0 {
            nodes.update(node_index(nodes, p), with_child_id(nodes[node_index(nodes, p)], child))
        } else {
            nodes
        },
        None => nodes,
    }
}

/// `nodes` with `n` stored under its id: replacing the turn with that id, or added last.
pub open spec fn insert_node(nodes: Seq<TurnNodeView>, n: TurnNodeView) -> Seq<TurnNodeView> {
    if node_index(nodes, n.id) >= 0 {
        nodes.update(node_index(nodes, n.id), n)
    } else {
        nodes.push(n)
    }
}

/// A new turn with the given content and no children.
pub open spec fn new_turn_view(
    id: Seq<char>,
    parent_id: Option<Seq<char>>,
    user_message: Option<MessageView>,
    assistant_message: Option<MessageView>,
    tool_calls: Seq<ToolCallView>,
    tool_results: Seq<ToolResultView>,
    usage: Option<TokenUsage>,
    timing: Option<TurnTiming>,
    created_at: i64,
) -> TurnNodeView {
    TurnNodeView {
        id,
        parent_id,
        children_ids: Seq::empty(),
        user_message,
        assistant_message,
        tool_calls,
        tool_results,
        usage,
        timing,
        created_at,
    }
}

impl EpisodeView {
    /// The history sent upstream for a turn that continues from `target` (or from the
    /// active leaf): the system prompt, then the messages of every turn on the path from
    /// the root.
    pub open spec fn history(self, target: Option<Seq<char>>) -> Seq<MessageView> {
        system_prefix(self.system_prompt) + path_messages(
            self.nodes,
            match target {
                Some(t) => Some(t),
                None => self.active_leaf_id,
            },
        )
    }

    /// The episode after appending turn `n` under the active leaf at time `now`.
    pub open spec fn after_append(self, n: TurnNodeView, now: i64) -> EpisodeView {
        EpisodeView {
            root_node_id: if self.active_leaf_id is None {
                Some(n.id)
            } else {
                self.root_node_id
            },
            active_leaf_id: Some(n.id),
            nodes: insert_node(add_child(self.nodes, self.active_leaf_id, n.id), n),
            updated_at: now,
            ..self
        }
    }

    /// No turn has the id `id`, no turn names it as parent, and it is not the active leaf.
    pub open spec fn id_unused(self, id: Seq<char>) -> bool {
        &&& node_index(self.nodes, id) < 0
        &&& forall|i: int| 0 <= i < self.nodes.len() ==> self.nodes[i].parent_id != Some(id)
        &&& self.active_leaf_id != Some(id)
    }

    /// The index of the pending approval for tool call `id`, or -1.
    pub open spec fn pending_index(self, id: Seq<char>) -> int {
        key_index::<PendingApproval>(self.pending_approvals, id)
    }
}

/// The error text of a fork from an unknown turn.
pub open spec fn node_not_found_text(id: Seq<char>) -> Seq<char> {
    "Node "@ + id + " not found in episode"@
}

impl TurnNode {
    /// A turn with the given id, parent, content and creation time, and no children.
    pub fn create(
        id: String,
        parent_id: Option<String>,
        user_message: Option<Message>,
        assistant_message: Option<Message>,
        tool_calls: Vec<ToolCall>,
        tool_results: Vec<ToolExecutionResult>,
        created_at: i64,
    ) -> (n: TurnNode)
        ensures
            n@ == new_turn_view(
                id@,
                opt_view_of(parent_id),
                opt_view_of(user_message),
                opt_view_of(assistant_message),
                views_of(tool_calls@),
                views_of(tool_results@),
                None,
                None,
                created_at,
            ),
    {
        let children_ids: Vec<String> = Vec::new();
        assert(views_of(children_ids@) =~= Seq::<Seq<char>>::empty());
        TurnNode {
            id,
            parent_id,
            children_ids,
            user_message,
            assistant_message,
            tool_calls,
            tool_results,
            usage: None,
            timing: None,
            created_at,
        }
    }

    /// A new turn with a fresh id `turn_<uuid>`, created now.
    pub fn new(
        parent_id: Option<String>,
        user_message: Option<Message>,
        assistant_message: Option<Message>,
        tool_calls: Vec<ToolCall>,
        tool_results: Vec<ToolExecutionResult>,
    ) -> (n: TurnNode)
        ensures
            is_generated_id(n@.id, "turn_"@),
            n@ == new_turn_view(
                n@.id,
                opt_view_of(parent_id),
                opt_view_of(user_message),
                opt_view_of(assistant_message),
                views_of(tool_calls@),
                views_of(tool_results@),
                None,
                None,
                n@.created_at,
            ),
    {
        let id = generate_id("turn_");
        let now = current_time_millis();
        Self::create(id, parent_id, user_message, assistant_message, tool_calls, tool_results, now)
    }
}

impl Episode {
    /// An episode with the given id, model and system prompt, created at `now`, with no turns.
    pub fn create(id: String, model: &str, system_prompt: Option<String>, now: i64) -> (e: Episode)
        ensures
            e@ == (EpisodeView {
                id: id@,
                model: model@,
                system_prompt: opt_view_of(system_prompt),
                root_node_id: None,
                active_leaf_id: None,
                nodes: Seq::empty(),
                pending_approvals: Seq::empty(),
                metadata: Seq::empty(),
                created_at: now,
                updated_at: now,
            }),
    {
        let nodes: Vec<TurnNode> = Vec::new();
        let pending_approvals: Vec<PendingApproval> = Vec::new();
        let metadata: Vec<MetadataEntry> = Vec::new();
        let e = Episode {
            id,
            model: model.to_owned(),
            system_prompt,
            root_node_id: None,
            active_leaf_id: None,
            nodes,
            pending_approvals,
            metadata,
            created_at: now,
            updated_at: now,
        };
        assert(e@.nodes =~= Seq::<TurnNodeView>::empty());
        assert(e@.pending_approvals =~= Seq::<PendingApprovalView>::empty());
        assert(e@.metadata =~= Seq::<(Seq<char>, Seq<char>)>::empty());
        e
    }

    /// A new episode with a fresh id `ep_<uuid>`, created now, with no turns.
    pub fn new(model: &str, system_prompt: Option<String>) -> (e: Episode)
        ensures
            is_generated_id(e@.id, "ep_"@),
            e@.model == model@,
            e@.system_prompt == opt_view_of(system_prompt),
            e@.root_node_id is None,
            e@.active_leaf_id is None,
            e@.nodes.len() == 0,
            e@.pending_approvals.len() == 0,
            e@.metadata.len() == 0,
            e@.created_at == e@.updated_at,
    {
        let id = generate_id("ep_");
        let now = current_time_millis();
        Self::create(id, model, system_prompt, now)
    }

    /// The turn with id `id`, if any.
    pub fn node(&self, id: &str) -> (r: Option<&TurnNode>)
        ensures
            match r {
                Some(n) => node_index(self@.nodes, id@) >= 0 && n@ == self@.nodes[node_index(self@.nodes, id@)],
                None => node_index(self@.nodes, id@) < 0,
            },
    {
        match find_by_key(&self.nodes, id) {
            Some(i) => Some(&self.nodes[i]),
            None => None,
        }
    }

    /// Appends turn `node` under the active leaf at time `now` and makes it the active leaf;
    /// the first turn becomes the root. Returns the id of the new turn.
    pub fn append_node(&mut self, node: TurnNode, now: i64) -> (r: String)
        requires
            node@.parent_id == old(self)@.active_leaf_id,
        ensures
            r@ == node@.id,
            final(self)@ == old(self)@.after_append(node@, now),
    {
        let ghost before = self@;
        let new_id = node.id.clone();
        if let Some(pid) = &self.active_leaf_id {
            match find_by_key(&self.nodes, pid.as_str()) {
                Some(k) => {
                    let mut parent = self.nodes[k].duplicate();
                    let c = new_id.clone();
                    proof {
                        lemma_views_push(parent.children_ids@, c);
                    }
                    parent.children_ids.push(c);
                    proof {
                        lemma_views_update(self.nodes@, k as int, parent);
                    }
                    self.nodes.set(k, parent);
                },
                None => {},
            }
        } else {
            self.root_node_id = Some(new_id.clone());
        }
        let ghost mid = self@.nodes;
        assert(mid == add_child(before.nodes, before.active_leaf_id, new_id@)) by {
            assert(views_of(self.nodes@) =~= add_child(before.nodes, before.active_leaf_id, new_id@));
        }
        match find_by_key(&self.nodes, new_id.as_str()) {
            Some(j) => {
                proof {
                    lemma_views_update(self.nodes@, j as int, node);
                }
                self.nodes.set(j, node);
            },
            None => {
                proof {
                    lemma_views_push(self.nodes@, node);
                }
                self.nodes.push(node);
            },
        }
        self.active_leaf_id = Some(new_id.clone());
        self.updated_at = now;
        assert(self@.nodes =~= insert_node(mid, node@));
        new_id
    }

    /// Appends one turn with id `id` under the active leaf at time `now`, and makes it the
    /// active leaf. Returns its id.
    pub fn append_turn_at(
        &mut self,
        id: String,
        now: i64,
        user_msg: Option<Message>,
        assistant_msg: Option<Message>,
        tool_calls: Vec<ToolCall>,
        tool_results: Vec<ToolExecutionResult>,
        usage: Option<TokenUsage>,
        timing: Option<TurnTiming>,
    ) -> (r: String)
        ensures
            r@ == id@,
            final(self)@ == old(self)@.after_append(
                new_turn_view(
                    id@,
                    old(self)@.active_leaf_id,
                    opt_view_of(user_msg),
                    opt_view_of(assistant_msg),
                    views_of(tool_calls@),
                    views_of(tool_results@),
                    usage,
                    timing,
                    now,
                ),
                now,
            ),
    {
        let parent = duplicate_opt(&self.active_leaf_id);
        let mut node = TurnNode::create(
            id,
            parent,
            user_msg,
            assistant_msg,
            tool_calls,
            tool_results,
            now,
        );
        node.usage = usage;
        node.timing = timing;
        self.append_node(node, now)
    }

    /// Appends a new turn (fresh id `turn_<uuid>`, stamped now) under the active leaf, or as
    /// the root of the first turn, and makes it the active leaf. Returns its id.
    pub fn append_turn(
        &mut self,
        user_msg: Option<Message>,
        assistant_msg: Option<Message>,
        tool_calls: Vec<ToolCall>,
        tool_results: Vec<ToolExecutionResult>,
    ) -> (r: String)
        ensures
            is_generated_id(r@, "turn_"@),
            final(self)@ == old(self)@.after_append(
                new_turn_view(
                    r@,
                    old(self)@.active_leaf_id,
                    opt_view_of(user_msg),
                    opt_view_of(assistant_msg),
                    views_of(tool_calls@),
                    views_of(tool_results@),
                    None,
                    None,
                    final(self)@.updated_at,
                ),
                final(self)@.updated_at,
            ),
    {
        let id = generate_id("turn_");
        let now = current_time_millis();
        self.append_turn_at(id, now, user_msg, assistant_msg, tool_calls, tool_results, None, None)
    }

    /// As `append_turn`, also recording token usage and timing on the new turn.
    pub fn append_turn_with_telemetry(
        &mut self,
        user_msg: Option<Message>,
        assistant_msg: Option<Message>,
        tool_calls: Vec<ToolCall>,
        tool_results: Vec<ToolExecutionResult>,
        usage: Option<TokenUsage>,
        timing: Option<TurnTiming>,
    ) -> (r: String)
        ensures
            is_generated_id(r@, "turn_"@),
            final(self)@ == old(self)@.after_append(
                new_turn_view(
                    r@,
                    old(self)@.active_leaf_id,
                    opt_view_of(user_msg),
                    opt_view_of(assistant_msg),
                    views_of(tool_calls@),
                    views_of(tool_results@),
                    usage,
                    timing,
                    final(self)@.updated_at,
                ),
                final(self)@.updated_at,
            ),
    {
        let id = generate_id("turn_");
        let now = current_time_millis();
        self.append_turn_at(id, now, user_msg, assistant_msg, tool_calls, tool_results, usage, timing)
    }

    /// Moves the active leaf to the existing turn `from_node_id` at time `now`, so that the
    /// next turn branches from it. Fails, changing nothing, when there is no such turn.
    pub fn fork_at(&mut self, from_node_id: &str, now: i64) -> (r: Result<String, String>)
        ensures
            node_index(old(self)@.nodes, from_node_id@) >= 0 ==> {
                &&& r matches Ok(id) && id@ == from_node_id@
                &&& final(self)@ == (EpisodeView {
                    active_leaf_id: Some(from_node_id@),
                    updated_at: now,
                    ..old(self)@
                })
            },
            node_index(old(self)@.nodes, from_node_id@) < 0 ==> {
                &&& r matches Err(e) && e@ == node_not_found_text(from_node_id@)
                &&& final(self)@ == old(self)@
            },
    {
        match find_by_key(&self.nodes, from_node_id) {
            None => Err(concat3("Node ", from_node_id, " not found in episode")),
            Some(_) => {
                self.active_leaf_id = Some(from_node_id.to_owned());
                self.updated_at = now;
                Ok(from_node_id.to_owned())
            },
        }
    }

    /// As `fork_at`, stamped with the current time.
    pub fn fork(&mut self, from_node_id: &str) -> (r: Result<String, String>)
        ensures
            node_index(old(self)@.nodes, from_node_id@) >= 0 ==> {
                &&& r matches Ok(id) && id@ == from_node_id@
                &&& final(self)@ == (EpisodeView {
                    active_leaf_id: Some(from_node_id@),
                    updated_at: final(self)@.updated_at,
                    ..old(self)@
                })
            },
            node_index(old(self)@.nodes, from_node_id@) < 0 ==> {
                &&& r matches Err(e) && e@ == node_not_found_text(from_node_id@)
                &&& final(self)@ == old(self)@
            },
    {
        let now = current_time_millis();
        self.fork_at(from_node_id, now)
    }

    /// The history for a turn that continues from `target_node_id` (or from the active
    /// leaf): the system prompt, then, root first, each turn's user message, assistant
    /// message and tool responses.
    pub fn linearize_history(&self, target_node_id: Option<&str>) -> (r: Vec<Message>)
        ensures
            views_of(r@) == self@.history(match target_node_id {
                Some(t) => Some(t@),
                None => None,
            }),
    {
        let ghost nodes = self@.nodes;
        let mut messages: Vec<Message> = Vec::new();
        if let Some(sys) = &self.system_prompt {
            let m = Message::system(sys.as_str());
            proof {
                lemma_views_push(messages@, m);
            }
            messages.push(m);
        }
        assert(views_of(messages@) =~= system_prefix(self@.system_prompt));
        let start: Option<String> = match target_node_id {
            Some(t) => Some(t.to_owned()),
            None => duplicate_opt(&self.active_leaf_id),
        };
        let ghost start_v = opt_view_of(start);
        let n = self.nodes.len();
        let mut collected: Vec<usize> = Vec::new();
        let ghost mut gc: Seq<int> = Seq::empty();
        let mut cur = start;
        let mut steps: usize = 0;
        let mut stop = false;
        while steps < n && !stop
            invariant
                n == self.nodes.len(),
                nodes == self@.nodes,
                nodes.len() == n,
                steps <= n,
                gc.len() == collected.len(),
                forall|i: int| 0 <= i < gc.len() ==> gc[i] == collected@[i] as int,
                forall|i: int| 0 <= i < gc.len() ==> 0 <= #[trigger] gc[i] < n,
                chain(nodes, start_v, n as nat) == gc + chain(nodes, opt_view_of(cur), (n - steps) as nat),
                stop ==> chain(nodes, opt_view_of(cur), (n - steps) as nat) == Seq::<int>::empty(),
            decreases n - steps + (if stop { 0int } else { 1int }),
        {
            match &cur {
                None => {
                    stop = true;
                },
                Some(id) => {
                    match find_by_key(&self.nodes, id.as_str()) {
                        None => {
                            stop = true;
                        },
                        Some(k) => {
                            proof {
                                lemma_key_index::<TurnNode>(nodes, id@);
                                assert(gc + chain(nodes, opt_view_of(cur), (n - steps) as nat) =~= gc.push(k as int)
                                    + chain(nodes, nodes[k as int].parent_id, (n - steps - 1) as nat));
                                gc = gc.push(k as int);
                            }
                            collected.push(k);
                            cur = duplicate_opt(&self.nodes[k].parent_id);
                            steps = steps + 1;
                        },
                    }
                },
            }
        }
        assert(chain(nodes, opt_view_of(cur), (n - steps) as nat) == Seq::<int>::empty());
        assert(chain(nodes, start_v, n as nat) =~= gc);
        let ghost base = views_of(messages@);
        let len = collected.len();
        let mut j = len;
        assert(gc.subrange(len as int, len as int) =~= Seq::<int>::empty());
        while j > 0
            invariant
                j <= len,
                len == collected.len(),
                gc.len() == len,
                n == self.nodes.len(),
                nodes == self@.nodes,
                forall|i: int| 0 <= i < gc.len() ==> gc[i] == collected@[i] as int,
                forall|i: int| 0 <= i < gc.len() ==> 0 <= #[trigger] gc[i] < n,
                views_of(messages@) == base + msgs_along(nodes, gc.subrange(j as int, len as int)),
            decreases j,
        {
            j = j - 1;
            let k = collected[j];
            assert(gc.subrange(j as int, len as int).drop_first() =~= gc.subrange(j + 1, len as int));
            assert(gc.subrange(j as int, len as int)[0] == k);
            push_turn_messages(&self.nodes[k], &mut messages);
        }
        assert(gc.subrange(0, len as int) =~= gc);
        messages
    }

    /// Whether a tool call `tool_call_id` waits for approval.
    pub fn has_pending_approval(&self, tool_call_id: &str) -> (r: bool)
        ensures
            r == (self@.pending_index(tool_call_id@) >= 0),
    {
        find_by_key(&self.pending_approvals, tool_call_id).is_some()
    }

    /// Records `approval` as waiting, replacing a waiting approval for the same tool call.
    pub fn insert_pending_approval(&mut self, approval: PendingApproval)
        ensures
            final(self)@ == (EpisodeView {
                pending_approvals: upserted::<PendingApproval>(old(self)@.pending_approvals, approval@),
                ..old(self)@
            }),
    {
        upsert_by_key(&mut self.pending_approvals, approval);
    }

    /// Removes and returns the waiting approval for tool call `tool_call_id`.
    pub fn take_pending_approval(&mut self, tool_call_id: &str) -> (r: Option<PendingApproval>)
        ensures
            final(self)@ == (EpisodeView {
                pending_approvals: removed::<PendingApproval>(old(self)@.pending_approvals, tool_call_id@),
                ..old(self)@
            }),
            match r {
                Some(a) => old(self)@.pending_index(tool_call_id@) >= 0 && a@
                    == old(self)@.pending_approvals[old(self)@.pending_index(tool_call_id@)],
                None => old(self)@.pending_index(tool_call_id@) == -1,
            },
    {
        remove_by_key(&mut self.pending_approvals, tool_call_id)
    }
}

/// Recording a child keeps every turn where it was, with the same id, parent and messages.
pub proof fn lemma_add_child_keeps_turns(nodes: Seq<TurnNodeView>, parent: Option<Seq<char>>, child: Seq<char>)
    ensures
        add_child(nodes, parent, child).len() == nodes.len(),
        forall|x: Seq<char>| node_index(add_child(nodes, parent, child), x) == node_index(nodes, x),
        forall|i: int| 0 <= i < nodes.len() ==> {
            &&& (#[trigger] add_child(nodes, parent, child)[i]).id == nodes[i].id
            &&& add_child(nodes, parent, child)[i].parent_id == nodes[i].parent_id
            &&& turn_messages(add_child(nodes, parent, child)[i]) == turn_messages(nodes[i])
        },
{
    if let Some(p) = parent {
        let k = node_index(nodes, p);
        if k >= 0 {
            lemma_key_index::<TurnNode>(nodes, p);
            assert forall|x: Seq<char>| node_index(add_child(nodes, parent, child), x) == node_index(nodes, x) by {
                lemma_key_index_update::<TurnNode>(nodes, k, with_child_id(nodes[k], child), x);
            }
        }
    }
}

/// The chain from a start that does not reach an unused id is the same once a turn with
/// that id is appended.
pub proof fn lemma_chain_after_append(ep: EpisodeView, n: TurnNodeView, start: Option<Seq<char>>, fuel: nat)
    requires
        ep.id_unused(n.id),
        start != Some(n.id),
    ensures
        chain(ep.after_append(n, 0).nodes, start, fuel) == chain(ep.nodes, start, fuel),
        forall|i: int| 0 <= i < chain(ep.nodes, start, fuel).len() ==> 0 <= #[trigger] chain(ep.nodes, start, fuel)[i] < ep.nodes.len(),
    decreases fuel,
{
    let nodes1 = add_child(ep.nodes, ep.active_leaf_id, n.id);
    let nodes2 = ep.after_append(n, 0).nodes;
    lemma_add_child_keeps_turns(ep.nodes, ep.active_leaf_id, n.id);
    assert(node_index(nodes1, n.id) < 0);
    assert(nodes2 == nodes1.push(n));
    if let Some(x) = start {
        if fuel > 0 {
            lemma_key_index_push::<TurnNode>(nodes1, n, x);
            lemma_key_index::<TurnNode>(ep.nodes, x);
            let k = node_index(ep.nodes, x);
            assert(node_index(nodes2, x) == k);
            if k >= 0 {
                assert(nodes2[k] == nodes1[k]);
                assert(nodes2[k].parent_id == ep.nodes[k].parent_id);
                lemma_chain_after_append(ep, n, ep.nodes[k].parent_id, (fuel - 1) as nat);
                let rest = chain(ep.nodes, ep.nodes[k].parent_id, (fuel - 1) as nat);
                assert forall|i: int| 0 <= i < chain(ep.nodes, start, fuel).len() implies 0 <= #[trigger] chain(ep.nodes, start, fuel)[i] < ep.nodes.len() by {
                    if i > 0 {
                        assert(chain(ep.nodes, start, fuel)[i] == rest[i - 1]);
                    }
                }
            }
        }
    }
}

/// The messages along a chain of old turns are the same once a turn is appended.
pub proof fn lemma_msgs_after_append(ep: EpisodeView, n: TurnNodeView, c: Seq<int>)
    requires
        ep.id_unused(n.id),
        forall|i: int| 0 <= i < c.len() ==> 0 <= #[trigger] c[i] < ep.nodes.len(),
    ensures
        msgs_along(ep.after_append(n, 0).nodes, c) == msgs_along(ep.nodes, c),
    decreases c.len(),
{
    if c.len() > 0 {
        let nodes1 = add_child(ep.nodes, ep.active_leaf_id, n.id);
        lemma_add_child_keeps_turns(ep.nodes, ep.active_leaf_id, n.id);
        assert(ep.after_append(n, 0).nodes == nodes1.push(n));
        assert(ep.after_append(n, 0).nodes[c[0]] == nodes1[c[0]]);
        lemma_msgs_after_append(ep, n, c.drop_first());
    }
}

/// Appending a turn extends the conversation history by exactly that turn's messages: the
/// history the next request sees is the history before plus the new turn.
pub proof fn law_append_extends_history(ep: EpisodeView, n: TurnNodeView, now: i64)
    requires
        ep.id_unused(n.id),
        n.parent_id == ep.active_leaf_id,
    ensures
        ep.after_append(n, now).history(None) == ep.history(None) + turn_messages(n),
{
    let nodes1 = add_child(ep.nodes, ep.active_leaf_id, n.id);
    let nodes2 = ep.after_append(n, now).nodes;
    lemma_add_child_keeps_turns(ep.nodes, ep.active_leaf_id, n.id);
    lemma_key_index_push::<TurnNode>(nodes1, n, n.id);
    assert(nodes2 == nodes1.push(n));
    assert(nodes2 == ep.after_append(n, 0).nodes);
    let big = nodes2.len();
    assert(node_index(nodes2, n.id) == ep.nodes.len());
    let c = chain(ep.nodes, ep.active_leaf_id, ep.nodes.len());
    lemma_chain_after_append(ep, n, ep.active_leaf_id, ep.nodes.len());
    assert(chain(nodes2, Some(n.id), big) == seq![ep.nodes.len() as int] + chain(nodes2, n.parent_id, ep.nodes.len()));
    let c2 = seq![ep.nodes.len() as int] + c;
    assert(c2.drop_first() =~= c);
    lemma_msgs_after_append(ep, n, c);
    assert(msgs_along(nodes2, c2) == msgs_along(nodes2, c) + turn_messages(nodes2[ep.nodes.len() as int]));
}

/// Following parents from any turn ends at a root within as many steps as there are turns:
/// no turn is its own ancestor.
pub open spec fn acyclic(nodes: Seq<TurnNodeView>) -> bool {
    forall|s: Option<Seq<char>>| #[trigger] chain(nodes, s, nodes.len() + 1) == chain(nodes, s, nodes.len())
}

/// Appending a turn rewrites no other history: the history that ends at any other turn is
/// the same afterwards.
pub proof fn law_append_keeps_other_histories(ep: EpisodeView, n: TurnNodeView, now: i64, k: Seq<char>)
    requires
        ep.id_unused(n.id),
        acyclic(ep.nodes),
        k != n.id,
    ensures
        ep.after_append(n, now).history(Some(k)) == ep.history(Some(k)),
{
    let nodes2 = ep.after_append(n, now).nodes;
    let len = ep.nodes.len();
    lemma_add_child_keeps_turns(ep.nodes, ep.active_leaf_id, n.id);
    assert(nodes2 == ep.after_append(n, 0).nodes);
    assert(nodes2.len() == len + 1);
    lemma_chain_after_append(ep, n, Some(k), len + 1);
    lemma_chain_after_append(ep, n, Some(k), len);
    assert(chain(ep.nodes, Some(k), len + 1) == chain(ep.nodes, Some(k), len));
    let c = chain(ep.nodes, Some(k), len);
    lemma_msgs_after_append(ep, n, c);
}

/// After a fork, the history continues from the turn that was forked from.
pub proof fn law_fork_resumes_from_node(ep: EpisodeView, id: Seq<char>, now: i64)
    ensures
        (EpisodeView { active_leaf_id: Some(id), updated_at: now, ..ep }).history(None) == ep.history(Some(id)),
{
}

/// A conversation continued from a recorded turn picks up where that turn ended: once turn
/// `n` is appended, the turn is found in the episode, and moving the episode to it (as a
/// request naming it as the previous response does) gives the history before the turn
/// followed by the turn's own messages.
pub proof fn law_resume_after_append(ep: EpisodeView, n: TurnNodeView, now: i64, later: i64)
    requires
        ep.id_unused(n.id),
        n.parent_id == ep.active_leaf_id,
    ensures
        node_index(ep.after_append(n, now).nodes, n.id) >= 0,
        (EpisodeView { active_leaf_id: Some(n.id), updated_at: later, ..ep.after_append(n, now) }).history(None)
            == ep.history(None) + turn_messages(n),
{
    let nodes1 = add_child(ep.nodes, ep.active_leaf_id, n.id);
    lemma_add_child_keeps_turns(ep.nodes, ep.active_leaf_id, n.id);
    lemma_key_index_push::<TurnNode>(nodes1, n, n.id);
    assert(ep.after_append(n, now).nodes == nodes1.push(n));
    law_append_extends_history(ep, n, now);
    law_fork_resumes_from_node(ep.after_append(n, now), n.id, later);
}

/// The messages a turn replays: its user message, then its assistant message, then one tool
/// response per tool result, in the results' order, each carrying the id of the tool call of
/// its own result and that result's output.
pub proof fn law_turn_messages_replay_results(n: TurnNodeView)
    ensures
        ({
            let k: int = (if n.user_message is Some { 1int } else { 0int }) + (if n.assistant_message is Some { 1int } else { 0int });
            &&& turn_messages(n).len() == k + n.tool_results.len()
            &&& (n.user_message matches Some(u) ==> turn_messages(n)[0] == u)
            &&& (n.assistant_message matches Some(a) ==> turn_messages(n)[k - 1] == a)
            &&& forall|j: int| 0 <= j < n.tool_results.len() ==> turn_messages(n)[k + j] == MessageView {
                role: Role::Tool,
                content: Some((#[trigger] n.tool_results[j]).output),
                tool_calls: None,
                tool_call_id: Some(n.tool_results[j].tool_call_id),
            }
        }),
{
    let k: int = (if n.user_message is Some { 1int } else { 0int }) + (if n.assistant_message is Some { 1int } else { 0int });
    let head = (match n.user_message {
        Some(m) => seq![m],
        None => Seq::empty(),
    }) + (match n.assistant_message {
        Some(m) => seq![m],
        None => Seq::empty(),
    });
    let tail = n.tool_results.map_values(|r: ToolResultView| tool_response_message(r.tool_call_id, r.output));
    assert(turn_messages(n) == head + tail);
    assert(head.len() == k);
    assert forall|j: int| 0 <= j < n.tool_results.len() implies turn_messages(n)[k + j] == MessageView {
        role: Role::Tool,
        content: Some((#[trigger] n.tool_results[j]).output),
        tool_calls: None,
        tool_call_id: Some(n.tool_results[j].tool_call_id),
    } by {
        assert(turn_messages(n)[k + j] == tail[j]);
    }
}

/// A waiting approval that is recorded can be taken back exactly once: afterwards no
/// approval waits for that tool call.
pub proof fn law_pending_approval_taken_once(pending: Seq<PendingApprovalView>, a: PendingApprovalView)
    requires
        keys_unique::<PendingApproval>(pending),
    ensures
        key_index::<PendingApproval>(upserted::<PendingApproval>(pending, a), a.tool_call.id) >= 0,
        upserted::<PendingApproval>(pending, a)[key_index::<PendingApproval>(upserted::<PendingApproval>(pending, a), a.tool_call.id)] == a,
        key_index::<PendingApproval>(
            removed::<PendingApproval>(upserted::<PendingApproval>(pending, a), a.tool_call.id),
            a.tool_call.id,
        ) == -1,
{
    lemma_upserted::<PendingApproval>(pending, a);
    lemma_removed::<PendingApproval>(upserted::<PendingApproval>(pending, a), a.tool_call.id);
}

/// Appends the messages of turn `node` to `out`.
pub fn push_turn_messages(node: &TurnNode, out: &mut Vec<Message>)
    ensures
        views_of(final(out)@) == views_of(old(out)@) + turn_messages(node@),
{
    let ghost start = views_of(out@);
    if let Some(u) = &node.user_message {
        let m = u.clone();
        proof {
            lemma_views_push(out@, m);
        }
        out.push(m);
    }
    let ghost after_user = views_of(out@);
    if let Some(a) = &node.assistant_message {
        let m = a.clone();
        proof {
            lemma_views_push(out@, m);
        }
        out.push(m);
    }
    let ghost after_assistant = views_of(out@);
    let ghost rs = node@.tool_results;
    let ghost f = |r: ToolResultView| tool_response_message(r.tool_call_id, r.output);
    let mut i: usize = 0;
    while i < node.tool_results.len()
        invariant
            i <= node.tool_results.len(),
            rs == views_of(node.tool_results@),
            f == (|r: ToolResultView| tool_response_message(r.tool_call_id, r.output)),
            views_of(out@) == after_assistant + rs.take(i as int).map_values(f),
        decreases node.tool_results.len() - i,
    {
        let r = &node.tool_results[i];
        let m = Message::tool_response(r.tool_call_id.as_str(), r.output.as_str());
        proof {
            lemma_views_push(out@, m);
            assert(rs.take(i + 1).map_values(f) =~= rs.take(i as int).map_values(f).push(f(rs[i as int])));
        }
        out.push(m);
        i = i + 1;
    }
    assert(rs.take(rs.len() as int) =~= rs);
    assert(views_of(out@) =~= start + turn_messages(node@));
}

} // verus!
