use vstd::prelude::*;

use crate::ident::is_generated_id;
use crate::duplicate::opt_view_of;
use crate::models::episode::{Episode, EpisodeView, MetadataEntry};
use crate::models::message::views_of;

verus! {

/// A request to open an episode.
#[derive(Debug)]
pub struct CreateEpisodeRequest {
    pub model: String,
    pub system_prompt: Option<String>,
    pub metadata: Option<Vec<MetadataEntry>>,
}

/// A request to run one turn of an episode.
#[derive(Debug)]
pub struct CreateTurnRequest {
    pub message: Option<String>,
    pub parent_node_id: Option<String>,
    /// Whether tools may run (default `true`).
    pub execute_tools: bool,
    /// How many upstream calls the turn may make (default 5).
    pub max_tool_iterations: usize,
}

/// A request to move an episode's active leaf to an earlier turn.
#[derive(Debug)]
pub struct ForkRequest {
    pub from_node_id: String,
}

/// A human decision on a tool call waiting for approval.
#[derive(Debug)]
pub struct ApprovalRequest {
    pub tool_call_id: String,
    pub approved: bool,
    pub feedback: Option<String>,
}

/// Tools run unless a turn request says otherwise.
pub fn default_true() -> (r: bool)
    ensures
        r,
{
    true
}

/// A turn makes at most five upstream calls unless its request says otherwise.
pub fn default_max_iterations() -> (r: usize)
    ensures
        r == 5,
{
    5
}

/// The new episode a creation request describes: its model and system prompt, and its
/// metadata when the request has any.
pub fn episode_for_request(req: CreateEpisodeRequest) -> (e: Episode)
    ensures
        is_generated_id(e@.id, "ep_"@),
        e@.model == req.model@,
        e@.system_prompt == opt_view_of(req.system_prompt),
        e@.nodes.len() == 0,
        e@.pending_approvals.len() == 0,
        e@.root_node_id is None,
        e@.active_leaf_id is None,
        match req.metadata {
            Some(m) => e@.metadata == views_of(m@),
            None => e@.metadata.len() == 0,
        },
{
    let mut episode = Episode::new(req.model.as_str(), req.system_prompt);
    if let Some(meta) = req.metadata {
        episode.metadata = meta;
    }
    episode
}

} // verus!
