use vstd::prelude::*;

use crate::duplicate::Duplicate;

verus! {

/// The function a tool exposes: its name, a description and the JSON schema of its parameters.
#[derive(Debug)]
pub struct FunctionDefinition {
    pub name: String,
    pub description: String,
    /// The JSON schema of the parameters, as JSON text.
    pub parameters: String,
}

/// A tool offered to the model.
#[derive(Debug)]
pub struct ToolDefinition {
    /// The tool type, `"function"` for every tool built by `new_function`.
    pub tool_type: String,
    pub function: FunctionDefinition,
}

/// The mathematical content of a tool definition.
pub struct ToolDefinitionView {
    pub tool_type: Seq<char>,
    pub name: Seq<char>,
    pub description: Seq<char>,
    pub parameters: Seq<char>,
}

impl View for ToolDefinition {
    type V = ToolDefinitionView;

    open spec fn view(&self) -> ToolDefinitionView {
        ToolDefinitionView {
            tool_type: self.tool_type@,
            name: self.function.name@,
            description: self.function.description@,
            parameters: self.function.parameters@,
        }
    }
}

impl Clone for ToolDefinition {
    fn clone(&self) -> (r: Self)
        ensures
            r@ == self@,
    {
        ToolDefinition {
            tool_type: self.tool_type.clone(),
            function: FunctionDefinition {
                name: self.function.name.clone(),
                description: self.function.description.clone(),
                parameters: self.function.parameters.clone(),
            },
        }
    }
}

impl ToolDefinition {
    /// A function tool with the given name, description and parameter schema (JSON text).
    pub fn new_function(name: &str, description: &str, parameters: &str) -> (d: ToolDefinition)
        ensures
            d@ == (ToolDefinitionView {
                tool_type: "function"@,
                name: name@,
                description: description@,
                parameters: parameters@,
            }),
    {
        ToolDefinition {
            tool_type: "function".to_owned(),
            function: FunctionDefinition {
                name: name.to_owned(),
                description: description.to_owned(),
                parameters: parameters.to_owned(),
            },
        }
    }
}

/// The outcome of running one tool call.
#[derive(Debug)]
pub struct ToolExecutionResult {
    pub tool_call_id: String,
    pub tool_name: String,
    pub output: String,
    pub is_error: bool,
}

/// The mathematical content of a tool execution result.
pub struct ToolResultView {
    pub tool_call_id: Seq<char>,
    pub tool_name: Seq<char>,
    pub output: Seq<char>,
    pub is_error: bool,
}

impl View for ToolExecutionResult {
    type V = ToolResultView;

    open spec fn view(&self) -> ToolResultView {
        ToolResultView {
            tool_call_id: self.tool_call_id@,
            tool_name: self.tool_name@,
            output: self.output@,
            is_error: self.is_error,
        }
    }
}

impl Clone for ToolExecutionResult {
    fn clone(&self) -> (r: Self)
        ensures
            r@ == self@,
    {
        ToolExecutionResult {
            tool_call_id: self.tool_call_id.clone(),
            tool_name: self.tool_name.clone(),
            output: self.output.clone(),
            is_error: self.is_error,
        }
    }
}

impl Duplicate for ToolDefinition {
    fn duplicate(&self) -> (r: Self) {
        self.clone()
    }
}

impl Duplicate for ToolExecutionResult {
    fn duplicate(&self) -> (r: Self) {
        self.clone()
    }
}

} // verus!
