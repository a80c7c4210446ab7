use vstd::prelude::*;

use crate::adapter::{StreamItem, StreamItemView};
use crate::duplicate::opt_view_of;
use crate::guardrails::context::{pruned_history, text_tokens, total_tokens, ContextBudgetManager};
use crate::ident::is_generated_id;
use crate::models::episode::{node_index, Episode, EpisodeView};
use crate::models::events::TokenUsage;
use crate::models::message::{lemma_views_push, opt_view, plain_message, views_of, Message, MessageView, Role};
use crate::models::tool::ToolDefinition;
use crate::text::concat;

verus! {

/// One item of a Responses API input list.
#[derive(Debug)]
pub struct ResponseInputItem {
    pub role: Option<String>,
    pub content: Option<String>,
}

/// The input of a Responses API request: plain text, or a list of items.
#[derive(Debug)]
pub enum ResponseInput {
    Text(String),
    Items(Vec<ResponseInputItem>),
}

/// A Responses API request.
#[derive(Debug)]
pub struct CreateResponseRequest {
    pub model: String,
    pub input: ResponseInput,
    pub previous_response_id: Option<String>,
    pub instructions: Option<String>,
    pub tools: Option<Vec<ToolDefinition>>,
    pub stream: bool,
}

/// A Chat Completions API request.
#[derive(Debug)]
pub struct ChatCompletionsRequest {
    pub model: String,
    pub messages: Vec<Message>,
    pub tools: Option<Vec<ToolDefinition>>,
    pub stream: bool,
}

/// The contents of the items that have one, in order.
pub open spec fn item_contents(items: Seq<ResponseInputItem>) -> Seq<Seq<char>>
    decreases items.len(),
{
    if items.len() == 0 {
        Seq::empty()
    } else {
        match items.last().content {
            Some(c) => item_contents(items.drop_last()).push(c@),
            None => item_contents(items.drop_last()),
        }
    }
}

/// The parts joined with `sep` between each two.
pub open spec fn joined(parts: Seq<Seq<char>>, sep: Seq<char>) -> Seq<char>
    decreases parts.len(),
{
    if parts.len() == 0 {
        Seq::empty()
    } else if parts.len() == 1 {
        parts[0]
    } else {
        joined(parts.drop_last(), sep) + sep + parts.last()
    }
}

/// The prompt of a Responses API input: the text, or the items' contents joined by newlines.
pub open spec fn prompt_of(input: ResponseInput) -> Seq<char> {
    match input {
        ResponseInput::Text(t) => t@,
        ResponseInput::Items(items) => joined(item_contents(items@), "\n"@),
    }
}

/// The prompt of a Responses API input.
pub fn prompt_text(input: &ResponseInput) -> (r: String)
    ensures
        r@ == prompt_of(*input),
{
    match input {
        ResponseInput::Text(t) => t.clone(),
        ResponseInput::Items(items) => {
            let mut out = String::new();
            let mut any = false;
            let mut i: usize = 0;
            while i < items.len()
                invariant
                    i <= items.len(),
                    out@ == joined(item_contents(items@.take(i as int)), "\n"@),
                    any == (item_contents(items@.take(i as int)).len() > 0),
                decreases items.len() - i,
            {
                assert(items@.take(i + 1).drop_last() =~= items@.take(i as int));
                if let Some(c) = &items[i].content {
                    if any {
                        out.append("\n");
                    }
                    out.append(c.as_str());
                    any = true;
                    proof {
                        let p = item_contents(items@.take(i as int));
                        assert(item_contents(items@.take(i + 1)) == p.push(c@));
                        assert(p.push(c@).drop_last() =~= p);
                        if p.len() == 0 {
                            assert(out@ =~= p.push(c@)[0]);
                        }
                    }
                }
                i = i + 1;
            }
            assert(items@.take(items.len() as int) =~= items@);
            out
        },
    }
}

/// The position of the first episode with a turn `node_id`, if any.
pub fn find_episode_with_node(episodes: &Vec<Episode>, node_id: &str) -> (r: Option<usize>)
    ensures
        match r {
            Some(k) => k < episodes.len() && node_index(episodes@[k as int]@.nodes, node_id@) >= 0
                && forall|j: int| 0 <= j < k ==> node_index(#[trigger] episodes@[j]@.nodes, node_id@) < 0,
            None => forall|j: int| 0 <= j < episodes.len() ==> node_index(#[trigger] episodes@[j]@.nodes, node_id@) < 0,
        },
{
    let mut k: usize = 0;
    while k < episodes.len()
        invariant
            k <= episodes.len(),
            forall|j: int| 0 <= j < k ==> node_index(#[trigger] episodes@[j]@.nodes, node_id@) < 0,
        decreases episodes.len() - k,
    {
        if episodes[k].node(node_id).is_some() {
            return Some(k);
        }
        k = k + 1;
    }
    None
}

/// The episode a Responses API request continues from response `previous_id`: the episode
/// found holding that turn, moved to it; else a new episode for `model` with `instructions`
/// as system prompt, whose active leaf is set to `previous_id`.
pub fn resume_episode(found: Option<Episode>, previous_id: &str, model: &str, instructions: Option<String>) -> (r: Episode)
    ensures
        match found {
            Some(e) => (node_index(e@.nodes, previous_id@) >= 0 ==> r@ == (EpisodeView {
                active_leaf_id: Some(previous_id@),
                updated_at: r@.updated_at,
                ..e@
            })) && (node_index(e@.nodes, previous_id@) < 0 ==> r@ == e@),
            None => is_generated_id(r@.id, "ep_"@) && r@.model == model@ && r@.system_prompt == opt_view_of(instructions)
                && r@.active_leaf_id == Some(previous_id@) && r@.root_node_id is None && r@.nodes.len() == 0
                && r@.pending_approvals.len() == 0,
        },
{
    match found {
        Some(mut e) => {
            let _ = e.fork(previous_id);
            e
        },
        None => {
            let mut e = Episode::new(model, instructions);
            e.active_leaf_id = Some(previous_id.to_owned());
            e
        },
    }
}

/// The episode a Chat Completions request runs in: the session's episode when it exists,
/// else a new episode for `model`.
pub fn session_episode(found: Option<Episode>, model: &str) -> (r: Episode)
    ensures
        match found {
            Some(e) => r@ == e@,
            None => is_generated_id(r@.id, "ep_"@) && r@.model == model@ && r@.system_prompt is None
                && r@.nodes.len() == 0 && r@.active_leaf_id is None,
        },
{
    match found {
        Some(e) => e,
        None => Episode::new(model, None),
    }
}

/// The key a Chat Completions request is routed by: the `x-episod-session` header when the
/// request carries one, so that the session keeps its replica whether or not its episode is
/// stored yet; else the id of the episode the request runs in.
pub fn session_route_key(session: &Option<String>, episode: &Episode) -> (r: String)
    ensures
        r@ == match session {
            Some(s) => s@,
            None => episode@.id,
        },
{
    match session {
        Some(s) => s.clone(),
        None => episode.id.clone(),
    }
}

/// The history a Responses API request sends: the episode's history up to its active leaf,
/// then the user's message, pruned to `budget`.
pub fn responses_history(episode: &Episode, user_message: &Message, budget: &ContextBudgetManager) -> (r: Vec<Message>)
    requires
        total_tokens(episode@.history(None).push(user_message@)) <= usize::MAX,
    ensures
        views_of(r@) == pruned_history(budget.budget(), episode@.history(None).push(user_message@)),
{
    let mut history = episode.linearize_history(None);
    let m = user_message.clone();
    proof {
        lemma_views_push(history@, m);
    }
    history.push(m);
    budget.prune_history(history)
}

/// Token counts reported for a response.
#[derive(Debug, Clone, Copy, PartialEq, Eq, Structural)]
pub struct ResponseUsage {
    pub total_tokens: usize,
    pub input_tokens: usize,
    pub output_tokens: usize,
}

/// The counts reported for a complete response: the upstream's when it reported usage; else
/// the estimate of the prompt and the output in total, no input tokens, and the total as
/// output tokens.
pub open spec fn complete_usage(usage: Option<TokenUsage>, prompt: Seq<MessageView>, output: Seq<char>) -> (int, int, int) {
    match usage {
        Some(u) => (u.total_tokens as int, u.prompt_tokens as int, u.completion_tokens as int),
        None => (
            (total_tokens(prompt) + text_tokens(output)) as int,
            0,
            (total_tokens(prompt) + text_tokens(output)) as int,
        ),
    }
}

/// The counts reported for a complete response.
pub fn response_usage(usage: Option<TokenUsage>, prompt: &Vec<Message>, output: &str) -> (r: ResponseUsage)
    requires
        usage is None ==> total_tokens(views_of(prompt@)) + text_tokens(output@) <= usize::MAX,
    ensures
        (r.total_tokens as int, r.input_tokens as int, r.output_tokens as int) == complete_usage(
            usage,
            views_of(prompt@),
            output@,
        ),
{
    match usage {
        Some(u) => ResponseUsage {
            total_tokens: u.total_tokens,
            input_tokens: u.prompt_tokens,
            output_tokens: u.completion_tokens,
        },
        None => {
            let total = ContextBudgetManager::estimate_total_tokens(prompt.as_slice())
                + ContextBudgetManager::estimate_tokens(output);
            ResponseUsage { total_tokens: total, input_tokens: 0, output_tokens: total }
        },
    }
}

/// The counts reported at the end of a streamed response: the upstream's input and output
/// counts (zero when it reported none) and their sum.
pub fn streamed_usage(usage: Option<TokenUsage>) -> (r: ResponseUsage)
    requires
        usage matches Some(u) ==> u.prompt_tokens + u.completion_tokens <= usize::MAX,
    ensures
        match usage {
            Some(u) => r.input_tokens == u.prompt_tokens && r.output_tokens == u.completion_tokens,
            None => r.input_tokens == 0 && r.output_tokens == 0,
        },
        r.total_tokens == r.input_tokens + r.output_tokens,
{
    match usage {
        Some(u) => ResponseUsage {
            total_tokens: u.prompt_tokens + u.completion_tokens,
            input_tokens: u.prompt_tokens,
            output_tokens: u.completion_tokens,
        },
        None => ResponseUsage { total_tokens: 0, input_tokens: 0, output_tokens: 0 },
    }
}

/// What one stream item means to a compatibility endpoint.
#[derive(Debug)]
pub enum ItemEffect {
    /// A piece of text to relay.
    Delta(String),
    /// The upstream finished, for this reason.
    Finished(String),
    /// Nothing to relay.
    Nothing,
}

/// The text and usage gathered from an upstream stream.
pub struct StreamCollector {
    pub text: String,
    pub usage: Option<TokenUsage>,
}

impl StreamCollector {
    /// Nothing gathered yet.
    pub fn new() -> (r: Self)
        ensures
            r.text@.len() == 0,
            r.usage is None,
    {
        StreamCollector { text: String::new(), usage: None }
    }

    /// Takes in one item: text is kept and relayed, usage is kept (the last one wins), a
    /// finish is reported, tool call pieces are ignored.
    pub fn absorb(&mut self, item: StreamItem) -> (r: ItemEffect)
        ensures
            match item@ {
                StreamItemView::Token(t) => final(self).text@ == old(self).text@ + t && final(self).usage == old(self).usage
                    && (r matches ItemEffect::Delta(d) && d@ == t),
                StreamItemView::Usage(u) => final(self).text@ == old(self).text@ && final(self).usage == Some(u)
                    && r is Nothing,
                StreamItemView::Finish { reason } => final(self).text@ == old(self).text@ && final(self).usage
                    == old(self).usage && (r matches ItemEffect::Finished(x) && x@ == reason),
                StreamItemView::ToolCallDelta { .. } => final(self).text@ == old(self).text@ && final(self).usage
                    == old(self).usage && r is Nothing,
            },
    {
        match item {
            StreamItem::Token(t) => {
                self.text.append(t.as_str());
                ItemEffect::Delta(t)
            },
            StreamItem::Usage(u) => {
                self.usage = Some(u);
                ItemEffect::Nothing
            },
            StreamItem::Finish { reason } => ItemEffect::Finished(reason),
            StreamItem::ToolCallDelta { .. } => ItemEffect::Nothing,
        }
    }
}

/// The user message of a Responses API request.
pub fn response_user_message(input: &ResponseInput) -> (r: Message)
    ensures
        r@ == plain_message(Role::User, prompt_of(*input)),
{
    let prompt = prompt_text(input);
    Message::user(prompt.as_str())
}

} // verus!
