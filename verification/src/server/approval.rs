use vstd::prelude::*;

use crate::keyed::removed;
use crate::models::episode::{Episode, EpisodeView, PendingApproval};
use crate::models::tool::{ToolExecutionResult, ToolResultView};
use crate::server::requests::ApprovalRequest;
use crate::text::{concat, concat3};

verus! {

/// The error text when no tool call `id` waits for approval.
pub open spec fn no_pending_text(id: Seq<char>) -> Seq<char> {
    "No pending approval found for tool_call_id '"@ + id + "'"@
}

/// The output recorded for a rejected tool call when the operator gave no feedback.
pub open spec fn rejection_text() -> Seq<char> {
    "Tool execution rejected by human operator."@
}

/// Takes the approval waiting for tool call `tool_call_id` out of the episode; fails, with
/// the episode unchanged, when none waits.
pub fn take_approval(episode: &mut Episode, tool_call_id: &str) -> (r: Result<PendingApproval, String>)
    ensures
        final(episode)@ == (EpisodeView {
            pending_approvals: removed::<PendingApproval>(old(episode)@.pending_approvals, tool_call_id@),
            ..old(episode)@
        }),
        old(episode)@.pending_index(tool_call_id@) >= 0 ==> (r matches Ok(a) && a@
            == old(episode)@.pending_approvals[old(episode)@.pending_index(tool_call_id@)]),
        old(episode)@.pending_index(tool_call_id@) < 0 ==> (r matches Err(e) && e@ == no_pending_text(tool_call_id@)
            && final(episode)@ == old(episode)@),
{
    match episode.take_pending_approval(tool_call_id) {
        Some(a) => Ok(a),
        None => {
            assert(removed::<PendingApproval>(old(episode)@.pending_approvals, tool_call_id@) == old(episode)@.pending_approvals);
            Err(concat3("No pending approval found for tool_call_id '", tool_call_id, "'"))
        },
    }
}

/// The result recorded for a decided tool call. Approved: the tool's output, or
/// `Execution error: <error>` when it failed, not flagged as an error. Rejected: the
/// operator's feedback, or a fixed notice, flagged as an error.
pub open spec fn decided_result(
    tool_call_id: Seq<char>,
    tool_name: Seq<char>,
    approved: bool,
    feedback: Option<Seq<char>>,
    outcome: Result<Seq<char>, Seq<char>>,
) -> ToolResultView {
    if approved {
        ToolResultView {
            tool_call_id,
            tool_name,
            output: match outcome {
                Ok(o) => o,
                Err(e) => "Execution error: "@ + e,
            },
            is_error: false,
        }
    } else {
        ToolResultView {
            tool_call_id,
            tool_name,
            output: match feedback {
                Some(f) => f,
                None => rejection_text(),
            },
            is_error: true,
        }
    }
}

/// The result recorded for the decision `req` on `pending`; `outcome` is what running the
/// tool gave, present exactly when the call was approved.
pub fn approval_result(req: &ApprovalRequest, pending: &PendingApproval, outcome: Option<Result<String, String>>) -> (r: ToolExecutionResult)
    requires
        req.approved ==> outcome is Some,
    ensures
        r@ == decided_result(
            req.tool_call_id@,
            pending.tool_call@.name,
            req.approved,
            match req.feedback {
                Some(f) => Some(f@),
                None => None,
            },
            match outcome {
                Some(Ok(o)) => Ok(o@),
                Some(Err(e)) => Err(e@),
                None => Ok(Seq::empty()),
            },
        ),
{
    if req.approved {
        let output = match outcome {
            Some(Ok(out)) => out,
            Some(Err(e)) => concat("Execution error: ", e.as_str()),
            None => String::new(),
        };
        ToolExecutionResult {
            tool_call_id: req.tool_call_id.clone(),
            tool_name: pending.tool_call.function.name.clone(),
            output,
            is_error: false,
        }
    } else {
        let output = match &req.feedback {
            Some(f) => f.clone(),
            None => "Tool execution rejected by human operator.".to_owned(),
        };
        ToolExecutionResult {
            tool_call_id: req.tool_call_id.clone(),
            tool_name: pending.tool_call.function.name.clone(),
            output,
            is_error: true,
        }
    }
}

/// The status reported for a decision.
pub fn approval_status(approved: bool) -> (r: &'static str)
    ensures
        approved ==> r@ == "approved"@,
        !approved ==> r@ == "rejected"@,
{
    if approved {
        "approved"
    } else {
        "rejected"
    }
}

} // verus!
