use vstd::prelude::*;

verus! {

/// What happens to a tool call the model makes.
#[derive(Debug, Clone, Copy, PartialEq, Eq, Structural)]
pub enum ToolPolicy {
    /// Run it at once.
    AutoApprove,
    /// Hold it until a human approves or rejects it.
    RequireApproval,
    /// Never run it.
    Deny,
}

impl Default for ToolPolicy {
    /// Tools run at once unless configured otherwise.
    fn default() -> (r: Self)
        ensures
            r == ToolPolicy::AutoApprove,
    {
        ToolPolicy::AutoApprove
    }
}

} // verus!
