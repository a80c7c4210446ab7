use vstd::prelude::*;

use crate::duplicate::{duplicate_vec, Duplicate};
use crate::json::{json_error, json_parse_error};
use crate::keyed::{
    find_by_key, key_index, keys_unique, lemma_key_index, lemma_upserted, lemma_upserted_other,
    upsert_by_key, upserted, Keyed,
};
use crate::models::message::{opt_view, views_of};
use crate::models::tool::{ToolDefinition, ToolDefinitionView};
use crate::text::{all_white_space, concat, concat3, is_blank};
use crate::tools::builtin::{calculator_definition, system_command_definition};
use crate::tools::policy::ToolPolicy;

verus! {

/// The policy configured for one tool.
#[derive(Debug)]
pub struct PolicyEntry {
    pub tool_name: String,
    pub policy: ToolPolicy,
}

/// The mathematical content of a policy entry.
pub struct PolicyEntryView {
    pub tool_name: Seq<char>,
    pub policy: ToolPolicy,
}

impl View for PolicyEntry {
    type V = PolicyEntryView;

    open spec fn view(&self) -> PolicyEntryView {
        PolicyEntryView { tool_name: self.tool_name@, policy: self.policy }
    }
}

impl Clone for PolicyEntry {
    fn clone(&self) -> (r: Self)
        ensures
            r@ == self@,
    {
        PolicyEntry { tool_name: self.tool_name.clone(), policy: self.policy }
    }
}

impl Duplicate for PolicyEntry {
    fn duplicate(&self) -> (r: Self) {
        self.clone()
    }
}

impl Keyed for PolicyEntry {
    open spec fn key_view(v: PolicyEntryView) -> Seq<char> {
        v.tool_name
    }

    fn key(&self) -> (k: &str) {
        self.tool_name.as_str()
    }
}

impl Keyed for ToolDefinition {
    open spec fn key_view(v: ToolDefinitionView) -> Seq<char> {
        v.name
    }

    fn key(&self) -> (k: &str) {
        self.function.name.as_str()
    }
}

/// The mathematical content of a tool registry: the registered tool definitions, the
/// configured policies, and the policy of tools with none configured.
pub struct RegistryView {
    pub tools: Seq<ToolDefinitionView>,
    pub policies: Seq<PolicyEntryView>,
    pub default_policy: ToolPolicy,
}

impl RegistryView {
    /// The policy in force for tool `name`.
    pub open spec fn policy_of(self, name: Seq<char>) -> ToolPolicy {
        let i = key_index::<PolicyEntry>(self.policies, name);
        if i >= 0 {
            self.policies[i].policy
        } else {
            self.default_policy
        }
    }

    /// The registry with `policy` configured for tool `name`.
    pub open spec fn with_policy(self, name: Seq<char>, policy: ToolPolicy) -> RegistryView {
        RegistryView {
            policies: upserted::<PolicyEntry>(self.policies, PolicyEntryView { tool_name: name, policy }),
            ..self
        }
    }

    /// The registry with tool `d` registered under its name with `policy`.
    pub open spec fn registered(self, d: ToolDefinitionView, policy: ToolPolicy) -> RegistryView {
        RegistryView { tools: upserted::<ToolDefinition>(self.tools, d), ..self.with_policy(d.name, policy) }
    }

    /// Whether a tool is registered under `name`.
    pub open spec fn has_tool(self, name: Seq<char>) -> bool {
        key_index::<ToolDefinition>(self.tools, name) >= 0
    }

    /// Tool names and policy names are each unique.
    pub open spec fn well_formed(self) -> bool {
        keys_unique::<ToolDefinition>(self.tools) && keys_unique::<PolicyEntry>(self.policies)
    }
}

/// The error text for a call of a tool that is not registered.
pub open spec fn tool_not_found_text(name: Seq<char>) -> Seq<char> {
    "Tool '"@ + name + "' not found in registry"@
}

/// The error text for a call whose arguments are not JSON.
pub open spec fn invalid_arguments_text(name: Seq<char>, error: Seq<char>) -> Seq<char> {
    "Invalid JSON arguments for tool '"@ + name + "': "@ + error
}

/// What a call of tool `name` with argument text `raw` hands to the tool's handler: the JSON
/// text of its arguments (`{}` for blank text), or the error that stops the call.
pub open spec fn call_arguments(r: RegistryView, name: Seq<char>, raw: Seq<char>) -> Result<Seq<char>, Seq<char>> {
    if !r.has_tool(name) {
        Err(tool_not_found_text(name))
    } else if all_white_space(raw) {
        Ok("{}"@)
    } else {
        match json_parse_error(raw) {
            None => Ok(raw),
            Some(e) => Err(invalid_arguments_text(name, e)),
        }
    }
}

/// The catalog of tools offered to the model and the policy that governs each.
pub struct ToolRegistry {
    tools: Vec<ToolDefinition>,
    policies: Vec<PolicyEntry>,
    default_policy: ToolPolicy,
}

impl View for ToolRegistry {
    type V = RegistryView;

    closed spec fn view(&self) -> RegistryView {
        RegistryView {
            tools: views_of(self.tools@),
            policies: views_of(self.policies@),
            default_policy: self.default_policy,
        }
    }
}

impl Clone for ToolRegistry {
    /// A copy with the same tools and policies.
    fn clone(&self) -> (r: Self)
        ensures
            r@ == self@,
    {
        proof {
            use_type_invariant(self);
        }
        ToolRegistry {
            tools: duplicate_vec(&self.tools),
            policies: duplicate_vec(&self.policies),
            default_policy: self.default_policy,
        }
    }
}

impl ToolRegistry {
    /// Tool names and policy names are each unique.
    #[verifier::type_invariant]
    closed spec fn inv(&self) -> bool {
        self@.well_formed()
    }

    /// Tool names and policy names are each unique.
    pub fn check_invariant(&self)
        ensures
            self@.well_formed(),
    {
        proof {
            use_type_invariant(self);
        }
    }

    /// A registry with no tools, under which unconfigured tools run at once.
    pub fn empty() -> (r: Self)
        ensures
            r@.tools.len() == 0,
            r@.policies.len() == 0,
            r@.default_policy == ToolPolicy::AutoApprove,
    {
        let r = ToolRegistry { tools: Vec::new(), policies: Vec::new(), default_policy: ToolPolicy::AutoApprove };
        assert(r@.tools =~= Seq::<ToolDefinitionView>::empty());
        assert(r@.policies =~= Seq::<PolicyEntryView>::empty());
        r
    }

    /// The registry with the built-in tools: `calculator`, run at once, and
    /// `system_command`, which needs approval.
    pub fn new() -> (r: Self)
        ensures
            r@ == (RegistryView {
                tools: Seq::empty(),
                policies: Seq::empty(),
                default_policy: ToolPolicy::AutoApprove,
            }).registered(calculator_definition_view(), ToolPolicy::AutoApprove).registered(
                system_command_definition_view(),
                ToolPolicy::RequireApproval,
            ),
    {
        let mut r = Self::empty();
        assert(r@.tools =~= Seq::<ToolDefinitionView>::empty());
        assert(r@.policies =~= Seq::<PolicyEntryView>::empty());
        r.register_default_tools();
        r
    }

    /// Registers the built-in tools.
    fn register_default_tools(&mut self)
        ensures
            final(self)@ == old(self)@.registered(calculator_definition_view(), ToolPolicy::AutoApprove).registered(
                system_command_definition_view(),
                ToolPolicy::RequireApproval,
            ),
    {
        self.register_tool(calculator_definition(), ToolPolicy::AutoApprove);
        self.register_tool(system_command_definition(), ToolPolicy::RequireApproval);
    }

    /// Configures `policy` for tool `tool_name`.
    pub fn set_policy(&mut self, tool_name: &str, policy: ToolPolicy)
        ensures
            final(self)@ == old(self)@.with_policy(tool_name@, policy),
    {
        proof {
            use_type_invariant(&*self);
        }
        let entry = PolicyEntry { tool_name: tool_name.to_owned(), policy };
        let mut policies: Vec<PolicyEntry> = Vec::new();
        std::mem::swap(&mut policies, &mut self.policies);
        proof {
            lemma_upserted::<PolicyEntry>(views_of(policies@), entry@);
        }
        upsert_by_key(&mut policies, entry);
        self.policies = policies;
    }

    /// The policy in force for tool `tool_name`: the configured one, else the default.
    pub fn get_policy(&self, tool_name: &str) -> (r: ToolPolicy)
        ensures
            r == self@.policy_of(tool_name@),
    {
        match find_by_key(&self.policies, tool_name) {
            Some(i) => self.policies[i].policy,
            None => self.default_policy,
        }
    }

    /// Registers `definition` under its name (replacing a tool of that name) with `policy`.
    pub fn register_tool(&mut self, definition: ToolDefinition, policy: ToolPolicy)
        ensures
            final(self)@ == old(self)@.registered(definition@, policy),
    {
        proof {
            use_type_invariant(&*self);
        }
        let name = definition.function.name.clone();
        let mut tools: Vec<ToolDefinition> = Vec::new();
        std::mem::swap(&mut tools, &mut self.tools);
        proof {
            lemma_upserted::<ToolDefinition>(views_of(tools@), definition@);
        }
        upsert_by_key(&mut tools, definition);
        self.tools = tools;
        self.set_policy(name.as_str(), policy);
    }

    /// The registered tool definitions, in the order they were first registered.
    pub fn get_definitions(&self) -> (r: Vec<ToolDefinition>)
        ensures
            views_of(r@) == self@.tools,
    {
        duplicate_vec(&self.tools)
    }

    /// Whether a tool is registered under `name`.
    pub fn has_tool(&self, name: &str) -> (r: bool)
        ensures
            r == self@.has_tool(name@),
    {
        find_by_key(&self.tools, name).is_some()
    }

    /// The JSON text of the arguments that a call of tool `name` with argument text `raw`
    /// hands to the tool's handler: `{}` for blank text, else `raw` itself. Fails when no
    /// tool has that name, or when `raw` is not JSON.
    pub fn call_arguments(&self, name: &str, raw: &str) -> (r: Result<String, String>)
        ensures
            match r {
                Ok(a) => call_arguments(self@, name@, raw@) == Ok::<Seq<char>, Seq<char>>(a@),
                Err(e) => call_arguments(self@, name@, raw@) == Err::<Seq<char>, Seq<char>>(e@),
            },
    {
        if !self.has_tool(name) {
            return Err(concat3("Tool '", name, "' not found in registry"));
        }
        if is_blank(raw) {
            return Ok("{}".to_owned());
        }
        match json_error(raw) {
            None => Ok(raw.to_owned()),
            Some(e) => {
                let head = concat3("Invalid JSON arguments for tool '", name, "': ");
                Err(concat(head.as_str(), e.as_str()))
            },
        }
    }
}

/// The definition of the built-in `calculator` tool.
pub open spec fn calculator_definition_view() -> ToolDefinitionView {
    ToolDefinitionView {
        tool_type: "function"@,
        name: "calculator"@,
        description: "Evaluate basic arithmetic expressions (add, sub, mul, div)"@,
        parameters: "{\"type\":\"object\",\"properties\":{\"expression\":{\"type\":\"string\",\"description\":\"e.g. 42 + 8\"}},\"required\":[\"expression\"]}"@,
    }
}

/// The definition of the built-in `system_command` tool.
pub open spec fn system_command_definition_view() -> ToolDefinitionView {
    ToolDefinitionView {
        tool_type: "function"@,
        name: "system_command"@,
        description: "Execute a sensitive system command (requires human-in-the-loop approval)"@,
        parameters: "{\"type\":\"object\",\"properties\":{\"command\":{\"type\":\"string\",\"description\":\"The command to run\"}},\"required\":[\"command\"]}"@,
    }
}

/// After registering a tool, its policy is the one it was registered with.
pub proof fn law_registered_policy_applies(r: RegistryView, d: ToolDefinitionView, policy: ToolPolicy)
    ensures
        r.registered(d, policy).policy_of(d.name) == policy,
        r.registered(d, policy).has_tool(d.name),
{
    lemma_upserted::<PolicyEntry>(r.policies, PolicyEntryView { tool_name: d.name, policy });
    lemma_upserted::<ToolDefinition>(r.tools, d);
}

/// Configuring a policy for one tool sets that tool's policy and no other.
pub proof fn law_policy_is_per_tool(r: RegistryView, name: Seq<char>, policy: ToolPolicy, other: Seq<char>)
    requires
        other != name,
    ensures
        r.with_policy(name, policy).policy_of(name) == policy,
        r.with_policy(name, policy).policy_of(other) == r.policy_of(other),
{
    let e = PolicyEntryView { tool_name: name, policy };
    lemma_upserted::<PolicyEntry>(r.policies, e);
    lemma_upserted_other::<PolicyEntry>(r.policies, e, other);
}

impl Default for ToolRegistry {
    /// The registry of `new`: the built-in tools with their policies.
    fn default() -> (r: Self)
        ensures
            r@ == (RegistryView {
                tools: Seq::empty(),
                policies: Seq::empty(),
                default_policy: ToolPolicy::AutoApprove,
            }).registered(calculator_definition_view(), ToolPolicy::AutoApprove).registered(
                system_command_definition_view(),
                ToolPolicy::RequireApproval,
            ),
    {
        Self::new()
    }
}

} // verus!
