use vstd::prelude::*;

use crate::adapter::{StreamItem, StreamItemView};
use crate::duplicate::{duplicate_opt, duplicate_vec, opt_view_of, Duplicate};
use crate::guardrails::context::{pruned_history, total_tokens, ContextBudgetManager};
use crate::ident::{current_time_millis, generate_id, is_generated_id};
use crate::json::{is_json, parses_as_json};
use crate::keyed::upserted;
use crate::models::episode::{new_turn_view, Episode, EpisodeView, PendingApproval, PendingApprovalView};
use crate::models::events::{AgentEvent, AgentEventView, TokenUsage, ToolArguments, ToolArgumentsView, TurnTiming};
use crate::models::message::{
    lemma_views_push, opt_view, plain_message, tool_response_message, views_of, FunctionCall, Message,
    MessageView, Role, ToolCall, ToolCallView,
};
use crate::models::tool::{ToolDefinition, ToolExecutionResult, ToolResultView};
use crate::text::{char_count, concat};
use crate::tools::policy::ToolPolicy;
use crate::tools::registry::{RegistryView, ToolRegistry};

verus! {

/// What has arrived so far of the tool call at one position of the stream.
#[derive(Debug)]
pub struct ToolCallAccumulator {
    pub index: usize,
    pub id: Option<String>,
    pub name: Option<String>,
    pub arguments: String,
}

/// The mathematical content of an accumulator.
pub struct AccumulatorView {
    pub index: usize,
    pub id: Option<Seq<char>>,
    pub name: Option<Seq<char>>,
    pub arguments: Seq<char>,
}

impl View for ToolCallAccumulator {
    type V = AccumulatorView;

    open spec fn view(&self) -> AccumulatorView {
        AccumulatorView { index: self.index, id: opt_view(self.id), name: opt_view(self.name), arguments: self.arguments@ }
    }
}

/// Accumulators are kept in increasing order of position, one per position.
pub open spec fn sorted_by_index(s: Seq<AccumulatorView>) -> bool {
    forall|i: int, j: int| #![trigger s[i], s[j]] 0 <= i < j < s.len() ==> s[i].index < s[j].index
}

/// Where position `k` belongs among accumulators: before the first one at `k` or later.
pub open spec fn acc_position(s: Seq<AccumulatorView>, k: usize) -> int
    decreases s.len(),
{
    if s.len() == 0 {
        0
    } else if s[0].index >= k {
        0
    } else {
        1 + acc_position(s.drop_first(), k)
    }
}

/// An accumulator after one more piece: a new id or name replaces the old one, and the
/// argument text grows by `delta`.
pub open spec fn merged(a: AccumulatorView, id: Option<Seq<char>>, name: Option<Seq<char>>, delta: Seq<char>) -> AccumulatorView {
    AccumulatorView {
        index: a.index,
        id: if id is Some { id } else { a.id },
        name: if name is Some { name } else { a.name },
        arguments: a.arguments + delta,
    }
}

/// The accumulators after a piece for position `index` arrives.
pub open spec fn accumulate(
    s: Seq<AccumulatorView>,
    index: usize,
    id: Option<Seq<char>>,
    name: Option<Seq<char>>,
    delta: Seq<char>,
) -> Seq<AccumulatorView> {
    let i = acc_position(s, index);
    if i < s.len() && s[i].index == index {
        s.update(i, merged(s[i], id, name, delta))
    } else {
        s.insert(i, AccumulatorView { index, id, name, arguments: delta })
    }
}

/// How tool arguments are reported: as JSON when the text is JSON, else wrapped as raw text.
pub open spec fn reported_arguments(text: Seq<char>) -> ToolArgumentsView {
    if is_json(text) {
        ToolArgumentsView::Json(text)
    } else {
        ToolArgumentsView::Raw(text)
    }
}

/// The tool call made of an accumulator: its id (else `fresh`), its name (else `unknown`)
/// and its argument text.
pub open spec fn flushed_call(a: AccumulatorView, fresh: Seq<char>) -> ToolCallView {
    ToolCallView {
        id: match a.id {
            Some(x) => x,
            None => fresh,
        },
        call_type: "function"@,
        name: match a.name {
            Some(n) => n,
            None => "unknown"@,
        },
        arguments: a.arguments,
    }
}

/// The tool calls of all accumulators, in order of position.
pub open spec fn flushed_calls(s: Seq<AccumulatorView>, fresh: Seq<Seq<char>>) -> Seq<ToolCallView> {
    Seq::new(s.len(), |k: int| flushed_call(s[k], fresh[k]))
}

/// The event reporting a completed tool call.
pub open spec fn completed_event(turn_id: Seq<char>, c: ToolCallView) -> AgentEventView {
    AgentEventView::ToolCallCompleted {
        turn_id,
        tool_call_id: c.id,
        name: c.name,
        arguments: reported_arguments(c.arguments),
    }
}

/// Where a turn stands.
#[derive(Debug, Clone, Copy, PartialEq, Eq, Structural)]
pub enum TurnPhase {
    /// Built; the first upstream call is still to be decided.
    Ready,
    /// Reading an upstream stream.
    Streaming,
    /// Waiting for the output of a tool call.
    Executing,
    /// Done with the upstream; the turn is to be recorded.
    Completing,
    /// Over: recorded, or given up on an error.
    Stopped,
}

/// What the caller is to do next.
#[derive(Debug)]
pub enum TurnAction {
    /// Call the upstream with the turn's history (and tools, when they may run).
    Infer,
    /// Run this tool call and hand back its outcome.
    Execute(ToolCall),
    /// Record the turn.
    Complete,
}

/// The mathematical content of an action.
pub enum TurnActionView {
    Infer,
    Execute(ToolCallView),
    Complete,
}

impl View for TurnAction {
    type V = TurnActionView;

    open spec fn view(&self) -> TurnActionView {
        match self {
            TurnAction::Infer => TurnActionView::Infer,
            TurnAction::Execute(c) => TurnActionView::Execute(c@),
            TurnAction::Complete => TurnActionView::Complete,
        }
    }
}

/// The mathematical content of a turn in progress.
pub struct TurnView {
    pub turn_id: Seq<char>,
    pub episode: EpisodeView,
    pub user_message: Option<MessageView>,
    /// The messages sent upstream at the next call.
    pub history: Seq<MessageView>,
    pub execute_tools: bool,
    pub max_iterations: usize,
    /// Upstream calls made so far.
    pub iteration: usize,
    /// The assistant text streamed so far, over all upstream calls.
    pub content: Seq<char>,
    pub accumulators: Seq<AccumulatorView>,
    /// Every tool call of the turn so far.
    pub calls: Seq<ToolCallView>,
    /// Every tool result of the turn so far.
    pub results: Seq<ToolResultView>,
    /// The tool calls of the last upstream call, and how many of them are decided.
    pub queue: Seq<ToolCallView>,
    pub pos: int,
    /// Some tool call of the last upstream call waits for approval or was refused.
    pub paused: bool,
    pub phase: TurnPhase,
    /// The token usage reported by the upstream's latest usage item, if any.
    pub usage: Option<TokenUsage>,
}

impl TurnView {
    /// Accumulators are sorted by position, the decided part of the queue is in range, and
    /// no more upstream calls were made than allowed.
    pub open spec fn valid(self) -> bool {
        &&& sorted_by_index(self.accumulators)
        &&& 0 <= self.pos <= self.queue.len()
        &&& self.iteration <= self.max_iterations
    }
}

/// The reason given when a tool call waits for approval.
pub open spec fn approval_reason() -> Seq<char> {
    "Sensitive tool execution requires human approval"@
}

/// The output recorded for a tool call that is not run.
pub open spec fn denied_output() -> Seq<char> {
    "Tool execution omitted or denied by policy"@
}

/// The event asking for approval of tool call `c`.
pub open spec fn approval_event(v: TurnView, c: ToolCallView) -> AgentEventView {
    AgentEventView::ApprovalRequired {
        episode_id: v.episode.id,
        turn_id: v.turn_id,
        tool_call_id: c.id,
        tool_name: c.name,
        arguments: reported_arguments(c.arguments),
        reason: approval_reason(),
    }
}

/// The event announcing that tool call `c` runs.
pub open spec fn started_event(v: TurnView, c: ToolCallView) -> AgentEventView {
    AgentEventView::ToolExecutionStarted { turn_id: v.turn_id, tool_call_id: c.id, tool_name: c.name }
}

/// The result recorded for a tool call that is not run.
pub open spec fn denied_result(c: ToolCallView) -> ToolResultView {
    ToolResultView { tool_call_id: c.id, tool_name: c.name, output: denied_output(), is_error: true }
}

/// The turn once tool call `c` is recorded as waiting for approval since `now`.
pub open spec fn with_pending(v: TurnView, c: ToolCallView, now: i64) -> TurnView {
    TurnView {
        episode: EpisodeView {
            pending_approvals: upserted::<PendingApproval>(
                v.episode.pending_approvals,
                PendingApprovalView { turn_id: v.turn_id, tool_call: c, created_at: now },
            ),
            ..v.episode
        },
        pos: v.pos + 1,
        paused: true,
        ..v
    }
}

/// The turn once tool call `c` is recorded as refused.
pub open spec fn with_denied(v: TurnView, c: ToolCallView) -> TurnView {
    TurnView { results: v.results.push(denied_result(c)), pos: v.pos + 1, paused: true, ..v }
}

/// The next step once the tool calls of an upstream call are all decided: another upstream
/// call while fewer than `max_iterations` were made, else the end of the turn.
pub open spec fn next_iteration_of(v: TurnView) -> (TurnView, TurnActionView) {
    if v.iteration < v.max_iterations {
        (
            TurnView {
                iteration: (v.iteration + 1) as usize,
                accumulators: Seq::empty(),
                phase: TurnPhase::Streaming,
                ..v
            },
            TurnActionView::Infer,
        )
    } else {
        (TurnView { phase: TurnPhase::Completing, ..v }, TurnActionView::Complete)
    }
}

/// Deciding the undecided tool calls of the queue, in order, under the registry's policies:
/// a call that needs approval is recorded as waiting (and announced); a call that may run
/// stops the decisions until its output comes back; any other call is recorded as refused.
/// Once all are decided, the turn ends if one waits or was refused, else goes on.
pub open spec fn process_queue(v: TurnView, reg: RegistryView, now: i64) -> (TurnView, Seq<AgentEventView>, TurnActionView)
    decreases v.queue.len() - v.pos,
{
    if v.pos < 0 || v.pos >= v.queue.len() {
        if v.paused {
            (TurnView { phase: TurnPhase::Completing, ..v }, Seq::empty(), TurnActionView::Complete)
        } else {
            (next_iteration_of(v).0, Seq::empty(), next_iteration_of(v).1)
        }
    } else {
        let c = v.queue[v.pos];
        let p = reg.policy_of(c.name);
        if p == ToolPolicy::RequireApproval {
            let r = process_queue(with_pending(v, c, now), reg, now);
            (r.0, seq![approval_event(v, c)] + r.1, r.2)
        } else if p == ToolPolicy::AutoApprove && v.execute_tools {
            (TurnView { phase: TurnPhase::Executing, ..v }, seq![started_event(v, c)], TurnActionView::Execute(c))
        } else {
            process_queue(with_denied(v, c), reg, now)
        }
    }
}

/// The end of an upstream stream: the accumulated tool calls are completed (ids missing
/// from the stream taken from `fresh`) and announced; without any, the turn ends; else
/// they join the turn's calls and are decided.
pub open spec fn after_stream(v: TurnView, reg: RegistryView, now: i64, fresh: Seq<Seq<char>>) -> (TurnView, Seq<AgentEventView>, TurnActionView) {
    let current = flushed_calls(v.accumulators, fresh);
    let completed = current.map_values(|c: ToolCallView| completed_event(v.turn_id, c));
    if current.len() == 0 {
        (TurnView { phase: TurnPhase::Completing, ..v }, completed, TurnActionView::Complete)
    } else {
        let r = process_queue(TurnView { calls: v.calls + current, queue: current, pos: 0, paused: false, ..v }, reg, now);
        (r.0, completed + r.1, r.2)
    }
}

/// The output text and error flag recorded for a tool outcome.
pub open spec fn tool_outcome(out: Result<Seq<char>, Seq<char>>) -> (Seq<char>, bool) {
    match out {
        Ok(o) => (o, false),
        Err(e) => ("Tool execution error: "@ + e, true),
    }
}

/// The assistant message that carries exactly tool call `c`.
pub open spec fn tool_call_message(c: ToolCallView) -> MessageView {
    MessageView { role: Role::Assistant, content: None, tool_calls: Some(seq![c]), tool_call_id: None }
}

/// The outcome of the running tool call comes back: it is announced and recorded, the call
/// and its answer join the history, and the remaining calls are decided.
pub open spec fn after_tool_output(v: TurnView, reg: RegistryView, now: i64, out: Result<Seq<char>, Seq<char>>) -> (TurnView, Seq<AgentEventView>, TurnActionView) {
    let c = v.queue[v.pos];
    let output = tool_outcome(out).0;
    let is_error = tool_outcome(out).1;
    let ev = AgentEventView::ToolExecutionCompleted {
        turn_id: v.turn_id,
        tool_call_id: c.id,
        tool_name: c.name,
        output,
        is_error,
    };
    let w = TurnView {
        results: v.results.push(ToolResultView { tool_call_id: c.id, tool_name: c.name, output, is_error }),
        history: v.history.push(tool_call_message(c)).push(tool_response_message(c.id, output)),
        pos: v.pos + 1,
        ..v
    };
    let r = process_queue(w, reg, now);
    (r.0, seq![ev] + r.1, r.2)
}

/// The turn that a request starts: the parent is the requested node, else the active leaf;
/// the history is the pruned history up to the parent, then the user's message.
pub open spec fn started_turn(
    ep: EpisodeView,
    message: Option<Seq<char>>,
    parent_node_id: Option<Seq<char>>,
    execute_tools: bool,
    max_iterations: usize,
    turn_id: Seq<char>,
    budget: nat,
) -> TurnView {
    let parent = if parent_node_id is Some { parent_node_id } else { ep.active_leaf_id };
    let user = match message {
        Some(t) => Some(plain_message(Role::User, t)),
        None => None,
    };
    let pruned = pruned_history(budget, ep.history(parent));
    TurnView {
        turn_id,
        episode: ep,
        user_message: user,
        history: match user {
            Some(u) => pruned.push(u),
            None => pruned,
        },
        execute_tools,
        max_iterations,
        iteration: 0,
        content: Seq::empty(),
        accumulators: Seq::empty(),
        calls: Seq::empty(),
        results: Seq::empty(),
        queue: Seq::empty(),
        pos: 0,
        paused: false,
        phase: TurnPhase::Ready,
        usage: None,
    }
}

/// The assistant message recorded for streamed text: none when nothing was streamed.
pub open spec fn assistant_reply(content: Seq<char>) -> Option<MessageView> {
    if content.len() > 0 {
        Some(plain_message(Role::Assistant, content))
    } else {
        None
    }
}

/// The turn once it is recorded as node `node_id` at time `now` with the measured `timing`:
/// the user message, the assistant's text, every tool call and result of the turn, and the
/// reported usage, under the active leaf.
pub open spec fn recorded_turn(v: TurnView, node_id: Seq<char>, now: i64, timing: TurnTiming) -> TurnView {
    TurnView {
        episode: v.episode.after_append(
            new_turn_view(
                node_id,
                v.episode.active_leaf_id,
                v.user_message,
                assistant_reply(v.content),
                v.calls,
                v.results,
                v.usage,
                Some(timing),
                now,
            ),
            now,
        ),
        phase: TurnPhase::Stopped,
        ..v
    }
}

/// One agentic turn of an episode, as a state machine: the caller feeds it what the
/// upstream and the tools produce and carries out the actions it returns.
pub struct TurnMachine {
    turn_id: String,
    episode: Episode,
    user_message: Option<Message>,
    history: Vec<Message>,
    execute_tools: bool,
    max_iterations: usize,
    iteration: usize,
    content: String,
    accumulators: Vec<ToolCallAccumulator>,
    calls: Vec<ToolCall>,
    results: Vec<ToolExecutionResult>,
    queue: Vec<ToolCall>,
    pos: usize,
    paused: bool,
    phase: TurnPhase,
    usage: Option<TokenUsage>,
}

impl View for TurnMachine {
    type V = TurnView;

    closed spec fn view(&self) -> TurnView {
        TurnView {
            turn_id: self.turn_id@,
            episode: self.episode@,
            user_message: opt_view_of(self.user_message),
            history: views_of(self.history@),
            execute_tools: self.execute_tools,
            max_iterations: self.max_iterations,
            iteration: self.iteration,
            content: self.content@,
            accumulators: views_of(self.accumulators@),
            calls: views_of(self.calls@),
            results: views_of(self.results@),
            queue: views_of(self.queue@),
            pos: self.pos as int,
            paused: self.paused,
            phase: self.phase,
            usage: self.usage,
        }
    }
}

/// How `text` is reported as tool arguments.
pub fn tool_arguments(text: &str) -> (r: ToolArguments)
    ensures
        r@ == reported_arguments(text@),
{
    if parses_as_json(text) {
        ToolArguments::Json(text.to_owned())
    } else {
        ToolArguments::Raw(text.to_owned())
    }
}

/// Views of a list of events extended by one.
proof fn lemma_events_push(s: Seq<AgentEvent>, x: AgentEvent)
    ensures
        views_of(s.push(x)) == views_of(s).push(x@),
{
    assert(views_of(s.push(x)) =~= views_of(s).push(x@));
}

/// `acc_position` is the first position whose accumulator is at `k` or later.
proof fn lemma_acc_position_at(s: Seq<AccumulatorView>, k: usize, p: int)
    requires
        0 <= p <= s.len(),
        forall|j: int| 0 <= j < p ==> (#[trigger] s[j]).index < k,
        p < s.len() ==> s[p].index >= k,
    ensures
        acc_position(s, k) == p,
    decreases s.len(),
{
    if s.len() > 0 && p > 0 {
        let d = s.drop_first();
        assert forall|j: int| 0 <= j < p - 1 implies (#[trigger] d[j]).index < k by {
            assert(d[j] == s[j + 1]);
        }
        if p - 1 < d.len() {
            assert(d[p - 1] == s[p]);
        }
        lemma_acc_position_at(d, k, p - 1);
    }
}

/// Accumulating keeps the accumulators sorted by position.
proof fn lemma_accumulate_sorted(
    s: Seq<AccumulatorView>,
    index: usize,
    id: Option<Seq<char>>,
    name: Option<Seq<char>>,
    delta: Seq<char>,
    p: int,
)
    requires
        sorted_by_index(s),
        0 <= p <= s.len(),
        forall|j: int| 0 <= j < p ==> (#[trigger] s[j]).index < index,
        p < s.len() ==> s[p].index >= index,
    ensures
        sorted_by_index(accumulate(s, index, id, name, delta)),
        acc_position(s, index) == p,
{
    lemma_acc_position_at(s, index, p);
    let t = accumulate(s, index, id, name, delta);
    if p < s.len() && s[p].index == index {
        assert forall|i: int, j: int| #![trigger t[i], t[j]] 0 <= i < j < t.len() implies t[i].index < t[j].index by {
            assert(t[i].index == s[i].index && t[j].index == s[j].index);
        }
    } else {
        assert forall|i: int, j: int| #![trigger t[i], t[j]] 0 <= i < j < t.len() implies t[i].index < t[j].index by {
            if j < p {
                assert(t[i] == s[i] && t[j] == s[j]);
            } else if j == p {
                assert(t[j].index == index);
                assert(t[i] == s[i]);
            } else if i < p {
                assert(t[i] == s[i] && t[j] == s[j - 1]);
            } else if i == p {
                assert(t[j] == s[j - 1]);
                assert(s[j - 1].index >= s[p].index);
            } else {
                assert(t[i] == s[i - 1] && t[j] == s[j - 1]);
            }
        }
    }
}

impl TurnMachine {
    /// Starts turn `turn_id` of `episode` for a request with `message`, parent node
    /// `parent_node_id` (else the active leaf), `execute_tools` and `max_iterations`, with the
    /// history pruned to `budget`. Returns the machine and the event announcing the turn.
    pub fn start(
        episode: Episode,
        message: Option<String>,
        parent_node_id: Option<String>,
        execute_tools: bool,
        max_iterations: usize,
        turn_id: String,
        budget: &ContextBudgetManager,
    ) -> (r: (TurnMachine, AgentEvent))
        requires
            total_tokens(episode@.history(if parent_node_id is Some {
                opt_view(parent_node_id)
            } else {
                episode@.active_leaf_id
            })) <= usize::MAX,
        ensures
            r.0@ == started_turn(episode@, opt_view(message), opt_view(parent_node_id), execute_tools, max_iterations, turn_id@, budget.budget()),
            r.0@.valid(),
            r.1@ == (AgentEventView::TurnStarted {
                episode_id: episode@.id,
                turn_id: turn_id@,
                parent_node_id: if parent_node_id is Some { opt_view(parent_node_id) } else { episode@.active_leaf_id },
            }),
    {
        let parent: Option<String> = match &parent_node_id {
            Some(p) => Some(p.clone()),
            None => duplicate_opt(&episode.active_leaf_id),
        };
        let event = AgentEvent::TurnStarted {
            episode_id: episode.id.clone(),
            turn_id: turn_id.clone(),
            parent_node_id: duplicate_opt(&parent),
        };
        let raw = match &parent {
            Some(p) => episode.linearize_history(Some(p.as_str())),
            None => episode.linearize_history(None),
        };
        let mut history = budget.prune_history(raw);
        let user_message = match &message {
            Some(t) => {
                let m = Message::user(t.as_str());
                let copy = m.duplicate();
                proof {
                    lemma_views_push(history@, copy);
                }
                history.push(copy);
                Some(m)
            },
            None => None,
        };
        let accumulators: Vec<ToolCallAccumulator> = Vec::new();
        let calls: Vec<ToolCall> = Vec::new();
        let results: Vec<ToolExecutionResult> = Vec::new();
        let queue: Vec<ToolCall> = Vec::new();
        let m = TurnMachine {
            turn_id,
            episode,
            user_message,
            history,
            execute_tools,
            max_iterations,
            iteration: 0,
            content: String::new(),
            accumulators,
            calls,
            results,
            queue,
            pos: 0,
            paused: false,
            phase: TurnPhase::Ready,
            usage: None,
        };
        proof {
            assert(m@.accumulators =~= Seq::<AccumulatorView>::empty());
            assert(m@.calls =~= Seq::<ToolCallView>::empty());
            assert(m@.results =~= Seq::<ToolResultView>::empty());
            assert(m@.queue =~= Seq::<ToolCallView>::empty());
        }
        (m, event)
    }

    /// The id of this turn.
    pub fn turn_id(&self) -> (r: &str)
        ensures
            r@ == self@.turn_id,
    {
        self.turn_id.as_str()
    }

    /// The episode as it stands.
    pub fn episode(&self) -> (r: &Episode)
        ensures
            r@ == self@.episode,
    {
        &self.episode
    }

    /// The messages to send upstream next.
    pub fn history(&self) -> (r: &Vec<Message>)
        ensures
            views_of(r@) == self@.history,
    {
        &self.history
    }

    /// Where the turn stands.
    pub fn phase(&self) -> (r: TurnPhase)
        ensures
            r == self@.phase,
    {
        self.phase
    }

    /// The tools offered upstream: the registry's tools when tools may run, else none.
    pub fn tools_offered(&self, registry: &ToolRegistry) -> (r: Vec<ToolDefinition>)
        ensures
            self@.execute_tools ==> views_of(r@) == registry@.tools,
            !self@.execute_tools ==> r@.len() == 0,
    {
        if self.execute_tools {
            registry.get_definitions()
        } else {
            Vec::new()
        }
    }

    /// Gives up the turn because no upstream replica is healthy.
    pub fn no_backend(&mut self) -> (r: AgentEvent)
        requires
            old(self)@.valid(),
        ensures
            final(self)@ == (TurnView { phase: TurnPhase::Stopped, ..old(self)@ }),
            r@ == (AgentEventView::Error {
                turn_id: Some(old(self)@.turn_id),
                message: "No healthy inference backend replicas available in cluster"@,
            }),
    {
        self.phase = TurnPhase::Stopped;
        AgentEvent::Error {
            turn_id: Some(self.turn_id.clone()),
            message: "No healthy inference backend replicas available in cluster".to_owned(),
        }
    }

    /// Gives up the turn because the upstream call failed with `message`.
    pub fn upstream_failed(&mut self, message: &str) -> (r: AgentEvent)
        ensures
            final(self)@ == (TurnView { phase: TurnPhase::Stopped, ..old(self)@ }),
            r@ == (AgentEventView::Error {
                turn_id: Some(old(self)@.turn_id),
                message: "Inference adapter stream error: "@ + message@,
            }),
    {
        self.phase = TurnPhase::Stopped;
        AgentEvent::Error {
            turn_id: Some(self.turn_id.clone()),
            message: concat("Inference adapter stream error: ", message),
        }
    }

    /// Gives up the turn because the upstream stream broke with `message`.
    pub fn stream_failed(&mut self, message: &str) -> (r: AgentEvent)
        ensures
            final(self)@ == (TurnView { phase: TurnPhase::Stopped, ..old(self)@ }),
            r@ == (AgentEventView::Error {
                turn_id: Some(old(self)@.turn_id),
                message: "Stream decode error: "@ + message@,
            }),
    {
        self.phase = TurnPhase::Stopped;
        AgentEvent::Error { turn_id: Some(self.turn_id.clone()), message: concat("Stream decode error: ", message) }
    }

    /// Decides the first upstream call of the turn.
    pub fn begin(&mut self) -> (r: TurnAction)
        requires
            old(self)@.valid(),
            old(self)@.phase == TurnPhase::Ready,
        ensures
            (final(self)@, r@) == next_iteration_of(old(self)@),
            final(self)@.valid(),
    {
        self.next_iteration()
    }

    /// Another upstream call, or the end of the turn once `max_iterations` were made.
    fn next_iteration(&mut self) -> (r: TurnAction)
        requires
            old(self)@.valid(),
        ensures
            (final(self)@, r@) == next_iteration_of(old(self)@),
            final(self)@.valid(),
    {
        if self.iteration < self.max_iterations {
            self.iteration = self.iteration + 1;
            self.accumulators = Vec::new();
            self.phase = TurnPhase::Streaming;
            assert(views_of(self.accumulators@) =~= Seq::<AccumulatorView>::empty());
            TurnAction::Infer
        } else {
            self.phase = TurnPhase::Completing;
            TurnAction::Complete
        }
    }

    /// A piece of assistant text arrives: it is kept and relayed.
    pub fn on_token(&mut self, token: String) -> (r: AgentEvent)
        requires
            old(self)@.valid(),
        ensures
            final(self)@ == (TurnView { content: old(self)@.content + token@, ..old(self)@ }),
            r@ == (AgentEventView::TokenDelta { turn_id: old(self)@.turn_id, delta: token@ }),
    {
        self.content.append(token.as_str());
        AgentEvent::TokenDelta { turn_id: self.turn_id.clone(), delta: token }
    }

    /// A piece of a tool call arrives: it is merged into the accumulator of its position and
    /// relayed with the call's id (empty while unknown) and name so far.
    pub fn on_tool_call_delta(
        &mut self,
        index: usize,
        id: Option<String>,
        name: Option<String>,
        arguments_delta: String,
    ) -> (r: AgentEvent)
        requires
            old(self)@.valid(),
        ensures
            final(self)@ == (TurnView {
                accumulators: accumulate(old(self)@.accumulators, index, opt_view(id), opt_view(name), arguments_delta@),
                ..old(self)@
            }),
            final(self)@.valid(),
            ({
                let a = final(self)@.accumulators[acc_position(old(self)@.accumulators, index)];
                r@ == (AgentEventView::ToolCallDelta {
                    turn_id: old(self)@.turn_id,
                    tool_call_id: match a.id {
                        Some(x) => x,
                        None => Seq::empty(),
                    },
                    index,
                    name: a.name,
                    arguments_delta: arguments_delta@,
                })
            }),
    {
        let ghost s = views_of(self.accumulators@);
        let mut accs: Vec<ToolCallAccumulator> = Vec::new();
        std::mem::swap(&mut accs, &mut self.accumulators);
        let mut p: usize = 0;
        while p < accs.len() && accs[p].index < index
            invariant
                p <= accs.len(),
                s == views_of(accs@),
                s.len() == accs.len(),
                forall|j: int| 0 <= j < p ==> (#[trigger] s[j]).index < index,
            decreases accs.len() - p,
        {
            p = p + 1;
        }
        proof {
            lemma_accumulate_sorted(s, index, opt_view(id), opt_view(name), arguments_delta@, p as int);
        }
        let ghost before = accs@;
        if p < accs.len() && accs[p].index == index {
            let mut entry = accs.remove(p);
            if id.is_some() {
                entry.id = id;
            }
            if name.is_some() {
                entry.name = name;
            }
            entry.arguments.append(arguments_delta.as_str());
            accs.insert(p, entry);
            assert(views_of(accs@) =~= accumulate(s, index, opt_view(id), opt_view(name), arguments_delta@)) by {
                assert forall|j: int| 0 <= j < accs@.len() implies views_of(accs@)[j] == accumulate(
                    s,
                    index,
                    opt_view(id),
                    opt_view(name),
                    arguments_delta@,
                )[j] by {
                    if j != p {
                        assert(accs@[j] == before[j]);
                    }
                }
            }
        } else {
            let entry = ToolCallAccumulator { index, id, name, arguments: arguments_delta.clone() };
            accs.insert(p, entry);
            assert(views_of(accs@) =~= accumulate(s, index, opt_view(id), opt_view(name), arguments_delta@)) by {
                assert forall|j: int| 0 <= j < accs@.len() implies views_of(accs@)[j] == accumulate(
                    s,
                    index,
                    opt_view(id),
                    opt_view(name),
                    arguments_delta@,
                )[j] by {
                    if j < p {
                        assert(accs@[j] == before[j]);
                    } else if j > p {
                        assert(accs@[j] == before[j - 1]);
                    }
                }
            }
        }
        let tool_call_id = match &accs[p].id {
            Some(x) => x.clone(),
            None => String::new(),
        };
        let event_name = duplicate_opt(&accs[p].name);
        self.accumulators = accs;
        AgentEvent::ToolCallDelta {
            turn_id: self.turn_id.clone(),
            tool_call_id,
            index,
            name: event_name,
            arguments_delta,
        }
    }

    /// An item of the upstream stream arrives: text and tool call pieces are taken in and
    /// relayed; a usage item is kept as the turn's usage; a finish item changes nothing.
    pub fn on_stream_item(&mut self, item: StreamItem) -> (r: Option<AgentEvent>)
        requires
            old(self)@.valid(),
        ensures
            final(self)@.valid(),
            match item@ {
                StreamItemView::Token(t) => final(self)@ == (TurnView { content: old(self)@.content + t, ..old(self)@ })
                    && (r matches Some(e) && e@ == (AgentEventView::TokenDelta { turn_id: old(self)@.turn_id, delta: t })),
                StreamItemView::ToolCallDelta { index, id, name, arguments_delta } => final(self)@ == (TurnView {
                    accumulators: accumulate(old(self)@.accumulators, index, id, name, arguments_delta),
                    ..old(self)@
                }) && (r matches Some(e) && e@ == (AgentEventView::ToolCallDelta {
                    turn_id: old(self)@.turn_id,
                    tool_call_id: match final(self)@.accumulators[acc_position(old(self)@.accumulators, index)].id {
                        Some(x) => x,
                        None => Seq::empty(),
                    },
                    index,
                    name: final(self)@.accumulators[acc_position(old(self)@.accumulators, index)].name,
                    arguments_delta,
                })),
                StreamItemView::Usage(u) => final(self)@ == (TurnView { usage: Some(u), ..old(self)@ }) && r is None,
                _ => final(self)@ == old(self)@ && r is None,
            },
    {
        match item {
            StreamItem::Token(t) => Some(self.on_token(t)),
            StreamItem::ToolCallDelta { index, id, name, arguments_delta } => Some(
                self.on_tool_call_delta(index, id, name, arguments_delta),
            ),
            StreamItem::Finish { .. } => None,
            StreamItem::Usage(u) => {
                self.usage = Some(u);
                None
            },
        }
    }

    /// Decides the undecided tool calls of the queue (see `process_queue`).
    fn process(&mut self, registry: &ToolRegistry, now: i64) -> (r: (Vec<AgentEvent>, TurnAction))
        requires
            old(self)@.valid(),
        ensures
            (final(self)@, views_of(r.0@), r.1@) == process_queue(old(self)@, registry@, now),
            final(self)@.valid(),
    {
        let ghost target = process_queue(self@, registry@, now);
        let mut events: Vec<AgentEvent> = Vec::new();
        while self.pos < self.queue.len()
            invariant
                target == process_queue(old(self)@, registry@, now),
                self@.valid(),
                process_queue(self@, registry@, now).0 == target.0,
                process_queue(self@, registry@, now).2 == target.2,
                views_of(events@) + process_queue(self@, registry@, now).1 == target.1,
            decreases self.queue.len() - self.pos,
        {
            let ghost v = self@;
            let c = self.queue[self.pos].clone();
            assert(c@ == v.queue[v.pos]);
            let policy = registry.get_policy(c.function.name.as_str());
            match policy {
                ToolPolicy::RequireApproval => {
                    let ev = AgentEvent::ApprovalRequired {
                        episode_id: self.episode.id.clone(),
                        turn_id: self.turn_id.clone(),
                        tool_call_id: c.id.clone(),
                        tool_name: c.function.name.clone(),
                        arguments: tool_arguments(c.function.arguments.as_str()),
                        reason: "Sensitive tool execution requires human approval".to_owned(),
                    };
                    proof {
                        lemma_events_push(events@, ev);
                    }
                    events.push(ev);
                    let approval = PendingApproval { turn_id: self.turn_id.clone(), tool_call: c, created_at: now };
                    self.episode.insert_pending_approval(approval);
                    self.pos = self.pos + 1;
                    self.paused = true;
                    proof {
                        assert(self@ == with_pending(v, v.queue[v.pos], now));
                        assert(views_of(events@) + process_queue(self@, registry@, now).1 =~= target.1);
                    }
                },
                ToolPolicy::AutoApprove if self.execute_tools => {
                    let ev = AgentEvent::ToolExecutionStarted {
                        turn_id: self.turn_id.clone(),
                        tool_call_id: c.id.clone(),
                        tool_name: c.function.name.clone(),
                    };
                    proof {
                        lemma_events_push(events@, ev);
                    }
                    events.push(ev);
                    self.phase = TurnPhase::Executing;
                    proof {
                        assert(ev@ == started_event(v, v.queue[v.pos]));
                        assert(registry@.policy_of(v.queue[v.pos].name) == ToolPolicy::AutoApprove);
                        assert(self@ == (TurnView { phase: TurnPhase::Executing, ..v }));
                        assert(process_queue(v, registry@, now) == (self@, seq![ev@], TurnActionView::Execute(c@)));
                        assert(views_of(events@) =~= target.1);
                    }
                    return (events, TurnAction::Execute(c));
                },
                _ => {
                    let result = ToolExecutionResult {
                        tool_call_id: c.id.clone(),
                        tool_name: c.function.name.clone(),
                        output: "Tool execution omitted or denied by policy".to_owned(),
                        is_error: true,
                    };
                    proof {
                        lemma_views_push(self.results@, result);
                    }
                    self.results.push(result);
                    self.pos = self.pos + 1;
                    self.paused = true;
                    proof {
                        assert(self@ == with_denied(v, v.queue[v.pos]));
                    }
                },
            }
        }
        if self.paused {
            self.phase = TurnPhase::Completing;
            assert(views_of(events@) =~= target.1);
            (events, TurnAction::Complete)
        } else {
            let a = self.next_iteration();
            assert(views_of(events@) =~= target.1);
            (events, a)
        }
    }

    /// The upstream stream ended: completes the accumulated tool calls, taking the id of
    /// the `k`-th from `fresh[k]` when the stream gave none, and decides them.
    pub fn end_stream_with(&mut self, registry: &ToolRegistry, now: i64, fresh: &Vec<String>) -> (r: (Vec<AgentEvent>, TurnAction))
        requires
            old(self)@.valid(),
            fresh.len() == old(self)@.accumulators.len(),
        ensures
            (final(self)@, views_of(r.0@), r.1@) == after_stream(old(self)@, registry@, now, views_of(fresh@)),
            final(self)@.valid(),
    {
        let ghost v = self@;
        let ghost fv = views_of(fresh@);
        let ghost current_v = flushed_calls(v.accumulators, fv);
        let mut events: Vec<AgentEvent> = Vec::new();
        let mut current: Vec<ToolCall> = Vec::new();
        let mut k: usize = 0;
        while k < self.accumulators.len()
            invariant
                v == self@,
                fv == views_of(fresh@),
                fresh.len() == self.accumulators.len(),
                current_v == flushed_calls(v.accumulators, fv),
                k <= self.accumulators.len(),
                views_of(current@) == current_v.take(k as int),
                views_of(events@) == current_v.take(k as int).map_values(|c: ToolCallView| completed_event(v.turn_id, c)),
            decreases self.accumulators.len() - k,
        {
            let a = &self.accumulators[k];
            let id = match &a.id {
                Some(x) => x.clone(),
                None => fresh[k].clone(),
            };
            let name = match &a.name {
                Some(n) => n.clone(),
                None => "unknown".to_owned(),
            };
            let call = ToolCall {
                id,
                call_type: "function".to_owned(),
                function: FunctionCall { name, arguments: a.arguments.clone() },
            };
            assert(call@ == current_v[k as int]);
            let ev = AgentEvent::ToolCallCompleted {
                turn_id: self.turn_id.clone(),
                tool_call_id: call.id.clone(),
                name: call.function.name.clone(),
                arguments: tool_arguments(call.function.arguments.as_str()),
            };
            proof {
                lemma_events_push(events@, ev);
                lemma_views_push(current@, call);
                assert(current_v.take(k + 1) =~= current_v.take(k as int).push(call@));
                assert(current_v.take(k + 1).map_values(|c: ToolCallView| completed_event(v.turn_id, c))
                    =~= current_v.take(k as int).map_values(|c: ToolCallView| completed_event(v.turn_id, c)).push(ev@));
            }
            events.push(ev);
            current.push(call);
            k = k + 1;
        }
        proof {
            assert(current_v.take(k as int) =~= current_v);
        }
        if current.len() == 0 {
            self.phase = TurnPhase::Completing;
            return (events, TurnAction::Complete);
        }
        let mut added = duplicate_vec(&current);
        let ghost added_before = added@;
        assert(views_of(added_before) == current_v);
        self.calls.append(&mut added);
        self.queue = current;
        self.pos = 0;
        self.paused = false;
        proof {
            assert(views_of(self.calls@) =~= v.calls + current_v) by {
                assert(self.calls@ =~= old(self).calls@ + added_before);
            }
            assert(self@ == (TurnView { calls: v.calls + current_v, queue: current_v, pos: 0, paused: false, ..v }));
        }
        let (more, action) = self.process(registry, now);
        let mut more = more;
        let ghost first = views_of(events@);
        let ghost rest = views_of(more@);
        events.append(&mut more);
        proof {
            assert(views_of(events@) =~= first + rest);
        }
        (events, action)
    }

    /// The upstream stream ended: completes the accumulated tool calls (with fresh
    /// `call_` ids where the stream gave none) and decides them.
    pub fn end_stream(&mut self, registry: &ToolRegistry) -> (r: (Vec<AgentEvent>, TurnAction))
        requires
            old(self)@.valid(),
        ensures
            (exists|now: i64, fresh: Seq<Seq<char>>|
                fresh.len() == old(self)@.accumulators.len()
                && (forall|k: int| 0 <= k < fresh.len() ==> is_generated_id(#[trigger] fresh[k], "call_"@))
                && (final(self)@, views_of(r.0@), r.1@) == after_stream(old(self)@, registry@, now, fresh)),
            final(self)@.valid(),
    {
        let mut fresh: Vec<String> = Vec::new();
        let mut k: usize = 0;
        while k < self.accumulators.len()
            invariant
                k <= self.accumulators.len(),
                fresh.len() == k,
                forall|j: int| 0 <= j < k ==> is_generated_id(#[trigger] fresh@[j]@, "call_"@),
            decreases self.accumulators.len() - k,
        {
            fresh.push(generate_id("call_"));
            k = k + 1;
        }
        let now = current_time_millis();
        let ghost fv = views_of(fresh@);
        assert forall|j: int| 0 <= j < fv.len() implies is_generated_id(#[trigger] fv[j], "call_"@) by {
            assert(fv[j] == fresh@[j]@);
        }
        self.end_stream_with(registry, now, &fresh)
    }

    /// The outcome of the running tool call comes back (`Err` holds the error text): it is
    /// announced and recorded, and the remaining calls are decided.
    pub fn on_tool_output(&mut self, registry: &ToolRegistry, now: i64, outcome: Result<String, String>) -> (r: (Vec<AgentEvent>, TurnAction))
        requires
            old(self)@.valid(),
            old(self)@.pos < old(self)@.queue.len(),
        ensures
            (final(self)@, views_of(r.0@), r.1@) == after_tool_output(
                old(self)@,
                registry@,
                now,
                match outcome {
                    Ok(o) => Ok(o@),
                    Err(e) => Err(e@),
                },
            ),
            final(self)@.valid(),
    {
        let ghost v = self@;
        assert(views_of(self.queue@).len() == self.queue@.len());
        assert(self.pos < self.queue.len());
        let c = self.queue[self.pos].clone();
        let (output, is_error) = match outcome {
            Ok(o) => (o, false),
            Err(e) => (concat("Tool execution error: ", e.as_str()), true),
        };
        let ev = AgentEvent::ToolExecutionCompleted {
            turn_id: self.turn_id.clone(),
            tool_call_id: c.id.clone(),
            tool_name: c.function.name.clone(),
            output: output.clone(),
            is_error,
        };
        let result = ToolExecutionResult {
            tool_call_id: c.id.clone(),
            tool_name: c.function.name.clone(),
            output: output.clone(),
            is_error,
        };
        proof {
            lemma_views_push(self.results@, result);
        }
        self.results.push(result);
        let call_copy = c.clone();
        let mut one: Vec<ToolCall> = Vec::new();
        one.push(call_copy);
        let m1 = Message::assistant_with_tools(one);
        assert(m1@ == tool_call_message(c@)) by {
            assert(views_of(one@) =~= seq![c@]);
        }
        let m2 = Message::tool_response(c.id.as_str(), output.as_str());
        proof {
            lemma_views_push(self.history@, m1);
        }
        self.history.push(m1);
        proof {
            lemma_views_push(self.history@, m2);
        }
        self.history.push(m2);
        assert(self.pos < self.queue.len());
        self.pos = self.pos + 1;
        let (more, action) = self.process(registry, now);
        let mut events: Vec<AgentEvent> = Vec::new();
        proof {
            lemma_events_push(events@, ev);
        }
        events.push(ev);
        let mut more = more;
        let ghost first = views_of(events@);
        let ghost rest = views_of(more@);
        events.append(&mut more);
        proof {
            assert(views_of(events@) =~= first + rest);
            assert(first =~= seq![ev@]);
        }
        (events, action)
    }

    /// Records the turn as node `node_id` at time `now`, with the measured `timing` (time to
    /// the first token and total time): the user message, the assistant's text (when any was
    /// streamed), every tool call and result of the turn, and the reported usage, under the
    /// active leaf. Returns the event announcing the end of the turn with its telemetry.
    pub fn complete_at(&mut self, node_id: String, now: i64, timing: TurnTiming) -> (r: AgentEvent)
        requires
            old(self)@.valid(),
            old(self)@.phase == TurnPhase::Completing,
        ensures
            final(self)@ == recorded_turn(old(self)@, node_id@, now, timing),
            r@ == (AgentEventView::TurnCompleted {
                episode_id: old(self)@.episode.id,
                turn_id: old(self)@.turn_id,
                node_id: node_id@,
                finish_reason: "stop"@,
                timing: timing,
                usage: old(self)@.usage,
            }),
    {
        let assistant = if char_count(self.content.as_str()) > 0 {
            Some(Message::assistant(self.content.as_str()))
        } else {
            None
        };
        let user = duplicate_opt(&self.user_message);
        let calls = duplicate_vec(&self.calls);
        let results = duplicate_vec(&self.results);
        let id = self.episode.append_turn_at(node_id, now, user, assistant, calls, results, self.usage, Some(timing));
        self.phase = TurnPhase::Stopped;
        AgentEvent::TurnCompleted {
            episode_id: self.episode.id.clone(),
            turn_id: self.turn_id.clone(),
            node_id: id,
            finish_reason: "stop".to_owned(),
            timing,
            usage: self.usage,
        }
    }

    /// Records the turn as a fresh node `turn_<uuid>`, stamped now, with the measured `timing`.
    pub fn complete(&mut self, timing: TurnTiming) -> (r: AgentEvent)
        requires
            old(self)@.valid(),
            old(self)@.phase == TurnPhase::Completing,
        ensures
            exists|node_id: Seq<char>, now: i64| {
                &&& final(self)@ == #[trigger] recorded_turn(old(self)@, node_id, now, timing)
                &&& is_generated_id(node_id, "turn_"@)
                &&& r@ == (AgentEventView::TurnCompleted {
                    episode_id: old(self)@.episode.id,
                    turn_id: old(self)@.turn_id,
                    node_id,
                    finish_reason: "stop"@,
                    timing,
                    usage: old(self)@.usage,
                })
            },
    {
        let id = generate_id("turn_");
        let now = current_time_millis();
        self.complete_at(id, now, timing)
    }

    /// The episode, for storing once the turn is over.
    pub fn into_episode(self) -> (r: Episode)
        ensures
            r@ == self@.episode,
    {
        self.episode
    }
}

/// The argument text gathered so far for position `k`: empty before its first piece.
pub open spec fn acc_arguments(s: Seq<AccumulatorView>, k: usize) -> Seq<char> {
    let i = acc_position(s, k);
    if i < s.len() && s[i].index == k {
        s[i].arguments
    } else {
        Seq::empty()
    }
}

/// In sorted accumulators, the entry found for `k` is the only one at `k`.
proof fn lemma_acc_position_finds(s: Seq<AccumulatorView>, k: usize)
    requires
        sorted_by_index(s),
    ensures
        0 <= acc_position(s, k) <= s.len(),
        forall|j: int| 0 <= j < acc_position(s, k) ==> (#[trigger] s[j]).index < k,
        acc_position(s, k) < s.len() ==> s[acc_position(s, k)].index >= k,
    decreases s.len(),
{
    if s.len() > 0 && s[0].index < k {
        let d = s.drop_first();
        assert(sorted_by_index(d)) by {
            assert forall|i: int, j: int| #![trigger d[i], d[j]] 0 <= i < j < d.len() implies d[i].index < d[j].index by {
                assert(d[i] == s[i + 1] && d[j] == s[j + 1]);
            }
        }
        lemma_acc_position_finds(d, k);
        assert forall|j: int| 0 <= j < acc_position(s, k) implies (#[trigger] s[j]).index < k by {
            if j > 0 {
                assert(s[j] == d[j - 1]);
            }
        }
        if acc_position(s, k) < s.len() {
            assert(s[acc_position(s, k)] == d[acc_position(d, k)]);
        }
    }
}

/// The argument pieces of each streamed tool call are joined in the order they arrive, and a
/// piece for one position leaves every other position's text as it was.
pub proof fn law_tool_arguments_concatenate(
    s: Seq<AccumulatorView>,
    index: usize,
    id: Option<Seq<char>>,
    name: Option<Seq<char>>,
    delta: Seq<char>,
    other: usize,
)
    requires
        sorted_by_index(s),
        other != index,
    ensures
        sorted_by_index(accumulate(s, index, id, name, delta)),
        acc_arguments(accumulate(s, index, id, name, delta), index) == acc_arguments(s, index) + delta,
        acc_arguments(accumulate(s, index, id, name, delta), other) == acc_arguments(s, other),
{
    lemma_acc_position_finds(s, index);
    let p = acc_position(s, index);
    lemma_accumulate_sorted(s, index, id, name, delta, p);
    let t = accumulate(s, index, id, name, delta);
    lemma_acc_position_finds(t, index);
    lemma_acc_position_finds(t, other);
    lemma_acc_position_finds(s, other);
    let q = acc_position(s, other);
    let qt = acc_position(t, other);
    let found = p < s.len() && s[p].index == index;
    // where `index` sits in the new accumulators
    assert(t[p].index == index);
    lemma_acc_position_at(t, index, p);
    if found {
        assert(acc_arguments(s, index) == s[p].arguments);
        assert(t[p].arguments == s[p].arguments + delta);
    } else {
        assert(acc_arguments(s, index) =~= Seq::<char>::empty());
        assert(t[p].arguments =~= Seq::<char>::empty() + delta);
    }
    // where `other` sits: shifted by one past the inserted entry, else in place
    if found || q <= p {
        if !found && q == p && other < index {
            // the new entry for `index` now stands where `other` would go
            assert forall|j: int| 0 <= j < q implies (#[trigger] t[j]).index < other by {
                assert(t[j] == s[j]);
            }
            lemma_acc_position_at(t, other, q);
        } else if !found && q == p {
            // `other` comes after `index`: the new entry moved it one place
            assert forall|j: int| 0 <= j < q + 1 implies (#[trigger] t[j]).index < other by {
                if j < p {
                    assert(t[j] == s[j]);
                }
            }
            if q < s.len() {
                assert(t[q + 1] == s[q]);
            }
            lemma_acc_position_at(t, other, q + 1);
        } else {
            assert forall|j: int| 0 <= j < q implies (#[trigger] t[j]).index < other by {
                if found {
                    assert(t[j].index == s[j].index);
                } else {
                    assert(t[j] == s[j]);
                }
            }
            if q < t.len() {
                if found {
                    assert(t[q].index == s[q].index);
                } else {
                    assert(t[q] == s[q]);
                }
            }
            lemma_acc_position_at(t, other, q);
        }
    } else {
        assert forall|j: int| 0 <= j < q + 1 implies (#[trigger] t[j]).index < other by {
            if j < p {
                assert(t[j] == s[j]);
            } else if j > p {
                assert(t[j] == s[j - 1]);
            }
        }
        if q < s.len() {
            assert(t[q + 1] == s[q]);
        }
        lemma_acc_position_at(t, other, q + 1);
    }
}

/// A tool call runs only when its policy lets it run at once and the request lets tools
/// run: a call that needs approval, or is refused, is never handed out for execution.
pub proof fn law_only_permitted_tools_run(v: TurnView, reg: RegistryView, now: i64)
    ensures
        process_queue(v, reg, now).2 matches TurnActionView::Execute(c) ==> reg.policy_of(c.name)
            == ToolPolicy::AutoApprove && v.execute_tools,
    decreases v.queue.len() - v.pos,
{
    if 0 <= v.pos < v.queue.len() {
        let c = v.queue[v.pos];
        let p = reg.policy_of(c.name);
        if p == ToolPolicy::RequireApproval {
            law_only_permitted_tools_run(with_pending(v, c, now), reg, now);
        } else if !(p == ToolPolicy::AutoApprove && v.execute_tools) {
            law_only_permitted_tools_run(with_denied(v, c), reg, now);
        }
    }
}

/// Deciding tool calls keeps the turn valid, never adds an upstream call beyond the limit,
/// and asks for another upstream call only when the limit allows it.
pub proof fn law_upstream_calls_bounded(v: TurnView, reg: RegistryView, now: i64)
    requires
        v.valid(),
    ensures
        process_queue(v, reg, now).0.valid(),
        process_queue(v, reg, now).0.max_iterations == v.max_iterations,
        process_queue(v, reg, now).2 is Infer ==> process_queue(v, reg, now).0.iteration == v.iteration + 1
            && v.iteration < v.max_iterations,
        !(process_queue(v, reg, now).2 is Infer) ==> process_queue(v, reg, now).0.iteration == v.iteration,
    decreases v.queue.len() - v.pos,
{
    if 0 <= v.pos < v.queue.len() {
        let c = v.queue[v.pos];
        let p = reg.policy_of(c.name);
        if p == ToolPolicy::RequireApproval {
            law_upstream_calls_bounded(with_pending(v, c, now), reg, now);
        } else if !(p == ToolPolicy::AutoApprove && v.execute_tools) {
            law_upstream_calls_bounded(with_denied(v, c), reg, now);
        }
    }
}

/// Deciding the queue never changes the history.
proof fn lemma_process_queue_keeps_history(v: TurnView, reg: RegistryView, now: i64)
    ensures
        process_queue(v, reg, now).0.history == v.history,
    decreases v.queue.len() - v.pos,
{
    if 0 <= v.pos < v.queue.len() {
        let c = v.queue[v.pos];
        let p = reg.policy_of(c.name);
        if p == ToolPolicy::RequireApproval {
            lemma_process_queue_keeps_history(with_pending(v, c, now), reg, now);
        } else if !(p == ToolPolicy::AutoApprove && v.execute_tools) {
            lemma_process_queue_keeps_history(with_denied(v, c), reg, now);
        }
    }
}

/// When a tool's outcome comes back, the history for the next upstream call grows by
/// exactly two messages, in this order: the assistant message carrying the tool call, then
/// the tool's answer to that call (its output, or the error text on failure).
pub proof fn law_tool_output_extends_history(v: TurnView, reg: RegistryView, now: i64, out: Result<Seq<char>, Seq<char>>)
    requires
        0 <= v.pos < v.queue.len(),
    ensures
        ({
            let h = after_tool_output(v, reg, now, out).0.history;
            let n: int = v.history.len() as int;
            let c = v.queue[v.pos];
            &&& h.len() == n + 2
            &&& h.subrange(0, n) == v.history
            &&& h[n] == MessageView { role: Role::Assistant, content: None, tool_calls: Some(seq![c]), tool_call_id: None }
            &&& h[n + 1] == MessageView {
                role: Role::Tool,
                content: Some(match out {
                    Ok(o) => o,
                    Err(e) => "Tool execution error: "@ + e,
                }),
                tool_calls: None,
                tool_call_id: Some(c.id),
            }
        }),
{
    let c = v.queue[v.pos];
    let output = tool_outcome(out).0;
    let is_error = tool_outcome(out).1;
    let w = TurnView {
        results: v.results.push(ToolResultView { tool_call_id: c.id, tool_name: c.name, output, is_error }),
        history: v.history.push(tool_call_message(c)).push(tool_response_message(c.id, output)),
        pos: v.pos + 1,
        ..v
    };
    lemma_process_queue_keeps_history(w, reg, now);
    assert(after_tool_output(v, reg, now, out).0 == process_queue(w, reg, now).0);
    let h = w.history;
    assert(h.subrange(0, v.history.len() as int) =~= v.history);
}

/// A tool call that needs approval ends the turn: once the queue is decided, a turn with a
/// call waiting for approval (or refused) is recorded instead of calling the upstream again.
pub proof fn law_approval_pauses_turn(v: TurnView, reg: RegistryView, now: i64)
    requires
        0 <= v.pos < v.queue.len(),
        reg.policy_of(v.queue[v.pos].name) == ToolPolicy::RequireApproval,
    ensures
        !(process_queue(v, reg, now).2 is Infer),
        process_queue(v, reg, now).1.len() > 0,
        process_queue(v, reg, now).1[0] == approval_event(v, v.queue[v.pos]),
{
    lemma_paused_never_infers(with_pending(v, v.queue[v.pos], now), reg, now);
}

/// Once a call waits or was refused, deciding the rest never calls the upstream again.
proof fn lemma_paused_never_infers(v: TurnView, reg: RegistryView, now: i64)
    requires
        v.paused,
    ensures
        !(process_queue(v, reg, now).2 is Infer),
    decreases v.queue.len() - v.pos,
{
    if 0 <= v.pos < v.queue.len() {
        let c = v.queue[v.pos];
        let p = reg.policy_of(c.name);
        if p == ToolPolicy::RequireApproval {
            lemma_paused_never_infers(with_pending(v, c, now), reg, now);
        } else if !(p == ToolPolicy::AutoApprove && v.execute_tools) {
            lemma_paused_never_infers(with_denied(v, c), reg, now);
        }
    }
}

} // verus!
