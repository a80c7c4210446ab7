use vstd::prelude::*;

use crate::models::message::opt_view;

verus! {

/// Token accounting reported for one turn.
#[derive(Debug, Clone, Copy, PartialEq, Eq, Structural)]
pub struct TokenUsage {
    pub prompt_tokens: usize,
    pub completion_tokens: usize,
    pub total_tokens: usize,
    pub cached_tokens: Option<usize>,
}

/// Latency figures for one turn, in milliseconds.
#[derive(Debug, Clone, Copy, PartialEq, Eq, Structural)]
pub struct TurnTiming {
    pub ttft_ms: Option<u64>,
    pub total_ms: u64,
}

/// The arguments of a completed tool call as they are reported to clients: either the
/// argument text, which is valid JSON, or text that is not JSON and is reported wrapped
/// as `{"raw": text}`.
#[derive(Debug)]
pub enum ToolArguments {
    Json(String),
    Raw(String),
}

/// An event of the agentic streaming protocol.
#[derive(Debug)]
#[allow(inconsistent_fields)]
pub enum AgentEvent {
    EpisodeCreated { episode_id: String, created_at: i64 },
    TurnStarted { episode_id: String, turn_id: String, parent_node_id: Option<String> },
    TokenDelta { turn_id: String, delta: String },
    ToolCallDelta {
        turn_id: String,
        tool_call_id: String,
        index: usize,
        name: Option<String>,
        arguments_delta: String,
    },
    ToolCallCompleted { turn_id: String, tool_call_id: String, name: String, arguments: ToolArguments },
    ApprovalRequired {
        episode_id: String,
        turn_id: String,
        tool_call_id: String,
        tool_name: String,
        arguments: ToolArguments,
        reason: String,
    },
    ToolExecutionStarted { turn_id: String, tool_call_id: String, tool_name: String },
    ToolExecutionCompleted {
        turn_id: String,
        tool_call_id: String,
        tool_name: String,
        output: String,
        is_error: bool,
    },
    TurnCompleted {
        episode_id: String,
        turn_id: String,
        node_id: String,
        finish_reason: String,
        timing: TurnTiming,
        usage: Option<TokenUsage>,
    },
    Error { turn_id: Option<String>, message: String },
}

/// The mathematical content of reported tool arguments.
pub enum ToolArgumentsView {
    Json(Seq<char>),
    Raw(Seq<char>),
}

impl View for ToolArguments {
    type V = ToolArgumentsView;

    open spec fn view(&self) -> ToolArgumentsView {
        match self {
            ToolArguments::Json(t) => ToolArgumentsView::Json(t@),
            ToolArguments::Raw(t) => ToolArgumentsView::Raw(t@),
        }
    }
}

/// The mathematical content of an event.
#[allow(inconsistent_fields)]
pub enum AgentEventView {
    EpisodeCreated { episode_id: Seq<char>, created_at: i64 },
    TurnStarted { episode_id: Seq<char>, turn_id: Seq<char>, parent_node_id: Option<Seq<char>> },
    TokenDelta { turn_id: Seq<char>, delta: Seq<char> },
    ToolCallDelta {
        turn_id: Seq<char>,
        tool_call_id: Seq<char>,
        index: usize,
        name: Option<Seq<char>>,
        arguments_delta: Seq<char>,
    },
    ToolCallCompleted { turn_id: Seq<char>, tool_call_id: Seq<char>, name: Seq<char>, arguments: ToolArgumentsView },
    ApprovalRequired {
        episode_id: Seq<char>,
        turn_id: Seq<char>,
        tool_call_id: Seq<char>,
        tool_name: Seq<char>,
        arguments: ToolArgumentsView,
        reason: Seq<char>,
    },
    ToolExecutionStarted { turn_id: Seq<char>, tool_call_id: Seq<char>, tool_name: Seq<char> },
    ToolExecutionCompleted {
        turn_id: Seq<char>,
        tool_call_id: Seq<char>,
        tool_name: Seq<char>,
        output: Seq<char>,
        is_error: bool,
    },
    TurnCompleted {
        episode_id: Seq<char>,
        turn_id: Seq<char>,
        node_id: Seq<char>,
        finish_reason: Seq<char>,
        timing: TurnTiming,
        usage: Option<TokenUsage>,
    },
    Error { turn_id: Option<Seq<char>>, message: Seq<char> },
}

impl View for AgentEvent {
    type V = AgentEventView;

    open spec fn view(&self) -> AgentEventView {
        match self {
            AgentEvent::EpisodeCreated { episode_id, created_at } => AgentEventView::EpisodeCreated {
                episode_id: episode_id@,
                created_at: *created_at,
            },
            AgentEvent::TurnStarted { episode_id, turn_id, parent_node_id } => AgentEventView::TurnStarted {
                episode_id: episode_id@,
                turn_id: turn_id@,
                parent_node_id: opt_view(*parent_node_id),
            },
            AgentEvent::TokenDelta { turn_id, delta } => AgentEventView::TokenDelta { turn_id: turn_id@, delta: delta@ },
            AgentEvent::ToolCallDelta { turn_id, tool_call_id, index, name, arguments_delta } => AgentEventView::ToolCallDelta {
                turn_id: turn_id@,
                tool_call_id: tool_call_id@,
                index: *index,
                name: opt_view(*name),
                arguments_delta: arguments_delta@,
            },
            AgentEvent::ToolCallCompleted { turn_id, tool_call_id, name, arguments } => AgentEventView::ToolCallCompleted {
                turn_id: turn_id@,
                tool_call_id: tool_call_id@,
                name: name@,
                arguments: arguments@,
            },
            AgentEvent::ApprovalRequired { episode_id, turn_id, tool_call_id, tool_name, arguments, reason } => AgentEventView::ApprovalRequired {
                episode_id: episode_id@,
                turn_id: turn_id@,
                tool_call_id: tool_call_id@,
                tool_name: tool_name@,
                arguments: arguments@,
                reason: reason@,
            },
            AgentEvent::ToolExecutionStarted { turn_id, tool_call_id, tool_name } => AgentEventView::ToolExecutionStarted {
                turn_id: turn_id@,
                tool_call_id: tool_call_id@,
                tool_name: tool_name@,
            },
            AgentEvent::ToolExecutionCompleted { turn_id, tool_call_id, tool_name, output, is_error } => AgentEventView::ToolExecutionCompleted {
                turn_id: turn_id@,
                tool_call_id: tool_call_id@,
                tool_name: tool_name@,
                output: output@,
                is_error: *is_error,
            },
            AgentEvent::TurnCompleted { episode_id, turn_id, node_id, finish_reason, timing, usage } => AgentEventView::TurnCompleted {
                episode_id: episode_id@,
                turn_id: turn_id@,
                node_id: node_id@,
                finish_reason: finish_reason@,
                timing: *timing,
                usage: *usage,
            },
            AgentEvent::Error { turn_id, message } => AgentEventView::Error { turn_id: opt_view(*turn_id), message: message@ },
        }
    }
}

/// The wire name of each kind of event.
pub open spec fn event_type_name(e: AgentEvent) -> Seq<char> {
    match e {
        AgentEvent::EpisodeCreated { .. } => "episode_created"@,
        AgentEvent::TurnStarted { .. } => "turn_started"@,
        AgentEvent::TokenDelta { .. } => "token_delta"@,
        AgentEvent::ToolCallDelta { .. } => "tool_call_delta"@,
        AgentEvent::ToolCallCompleted { .. } => "tool_call_completed"@,
        AgentEvent::ApprovalRequired { .. } => "approval_required"@,
        AgentEvent::ToolExecutionStarted { .. } => "tool_execution_started"@,
        AgentEvent::ToolExecutionCompleted { .. } => "tool_execution_completed"@,
        AgentEvent::TurnCompleted { .. } => "turn_completed"@,
        AgentEvent::Error { .. } => "error"@,
    }
}

impl AgentEvent {
    /// The SSE event name under which this event is sent.
    pub fn event_type(&self) -> (r: &'static str)
        ensures
            r@ == event_type_name(*self),
    {
        match self {
            AgentEvent::EpisodeCreated { .. } => "episode_created",
            AgentEvent::TurnStarted { .. } => "turn_started",
            AgentEvent::TokenDelta { .. } => "token_delta",
            AgentEvent::ToolCallDelta { .. } => "tool_call_delta",
            AgentEvent::ToolCallCompleted { .. } => "tool_call_completed",
            AgentEvent::ApprovalRequired { .. } => "approval_required",
            AgentEvent::ToolExecutionStarted { .. } => "tool_execution_started",
            AgentEvent::ToolExecutionCompleted { .. } => "tool_execution_completed",
            AgentEvent::TurnCompleted { .. } => "turn_completed",
            AgentEvent::Error { .. } => "error",
        }
    }
}

} // verus!
