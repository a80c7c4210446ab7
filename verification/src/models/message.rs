use vstd::prelude::*;

use crate::duplicate::{duplicate_vec, Duplicate};

verus! {

/// The author of a chat message.
#[derive(Debug, Clone, Copy, PartialEq, Eq, Structural)]
pub enum Role {
    System,
    User,
    Assistant,
    Tool,
}

/// The function part of a tool call: its name and its raw JSON argument text.
#[derive(Debug)]
pub struct FunctionCall {
    pub name: String,
    pub arguments: String,
}

/// A tool call requested by the model.
#[derive(Debug)]
pub struct ToolCall {
    pub id: String,
    /// The call type, `"function"` for every call the gateway produces.
    pub call_type: String,
    pub function: FunctionCall,
}

/// The mathematical content of a tool call.
pub struct ToolCallView {
    pub id: Seq<char>,
    pub call_type: Seq<char>,
    pub name: Seq<char>,
    pub arguments: Seq<char>,
}

impl View for ToolCall {
    type V = ToolCallView;

    open spec fn view(&self) -> ToolCallView {
        ToolCallView {
            id: self.id@,
            call_type: self.call_type@,
            name: self.function.name@,
            arguments: self.function.arguments@,
        }
    }
}

impl Clone for FunctionCall {
    fn clone(&self) -> (r: Self)
        ensures
            r.name@ == self.name@,
            r.arguments@ == self.arguments@,
    {
        FunctionCall { name: self.name.clone(), arguments: self.arguments.clone() }
    }
}

impl Clone for ToolCall {
    fn clone(&self) -> (r: Self)
        ensures
            r@ == self@,
    {
        ToolCall {
            id: self.id.clone(),
            call_type: self.call_type.clone(),
            function: self.function.clone(),
        }
    }
}

/// The views of a sequence of values, element by element.
pub open spec fn views_of<T: View>(s: Seq<T>) -> Seq<T::V> {
    s.map_values(|t: T| t@)
}

/// Views of a sequence extended by one element.
pub proof fn lemma_views_push<T: View>(s: Seq<T>, x: T)
    ensures
        views_of(s.push(x)) == views_of(s).push(x@),
{
    assert(views_of(s.push(x)) =~= views_of(s).push(x@));
}

/// Views of a sequence with one element replaced.
pub proof fn lemma_views_update<T: View>(s: Seq<T>, i: int, x: T)
    requires
        0 <= i < s.len(),
    ensures
        views_of(s.update(i, x)) == views_of(s).update(i, x@),
{
    assert(views_of(s.update(i, x)) =~= views_of(s).update(i, x@));
}

/// Views of a sequence prefix extended by the next element.
pub proof fn lemma_views_take_next<T: View>(s: Seq<T>, i: int)
    requires
        0 <= i < s.len(),
    ensures
        views_of(s.take(i + 1)) == views_of(s.take(i)).push(s[i]@),
{
    assert(s.take(i + 1) =~= s.take(i).push(s[i]));
    lemma_views_push(s.take(i), s[i]);
}


/// Clones an optional string.
pub fn clone_opt_string(s: &Option<String>) -> (r: Option<String>)
    ensures
        opt_view(r) == opt_view(*s),
{
    match s {
        Some(t) => Some(t.clone()),
        None => None,
    }
}

/// The view of an optional string.
pub open spec fn opt_view(s: Option<String>) -> Option<Seq<char>> {
    match s {
        Some(t) => Some(t@),
        None => None,
    }
}

/// One chat message in the OpenAI chat format.
#[derive(Debug)]
pub struct Message {
    pub role: Role,
    pub content: Option<String>,
    pub tool_calls: Option<Vec<ToolCall>>,
    pub tool_call_id: Option<String>,
}

/// The mathematical content of a message.
pub struct MessageView {
    pub role: Role,
    pub content: Option<Seq<char>>,
    pub tool_calls: Option<Seq<ToolCallView>>,
    pub tool_call_id: Option<Seq<char>>,
}

impl View for Message {
    type V = MessageView;

    open spec fn view(&self) -> MessageView {
        MessageView {
            role: self.role,
            content: opt_view(self.content),
            tool_calls: match self.tool_calls {
                Some(v) => Some(views_of(v@)),
                None => None,
            },
            tool_call_id: opt_view(self.tool_call_id),
        }
    }
}

impl Clone for Message {
    fn clone(&self) -> (r: Self)
        ensures
            r@ == self@,
    {
        let tool_calls = match &self.tool_calls {
            Some(v) => Some(duplicate_vec(v)),
            None => None,
        };
        Message {
            role: self.role,
            content: clone_opt_string(&self.content),
            tool_calls,
            tool_call_id: clone_opt_string(&self.tool_call_id),
        }
    }
}

impl Duplicate for ToolCall {
    fn duplicate(&self) -> (r: Self) {
        self.clone()
    }
}

impl Duplicate for Message {
    fn duplicate(&self) -> (r: Self) {
        self.clone()
    }
}

/// A message with only a role and text content.
pub open spec fn plain_message(role: Role, content: Seq<char>) -> MessageView {
    MessageView { role, content: Some(content), tool_calls: None, tool_call_id: None }
}

/// The tool response message answering tool call `id` with text `output`.
pub open spec fn tool_response_message(id: Seq<char>, output: Seq<char>) -> MessageView {
    MessageView { role: Role::Tool, content: Some(output), tool_calls: None, tool_call_id: Some(id) }
}

impl Message {
    /// A system message.
    pub fn system(content: &str) -> (m: Message)
        ensures
            m@ == plain_message(Role::System, content@),
    {
        Message { role: Role::System, content: Some(content.to_owned()), tool_calls: None, tool_call_id: None }
    }

    /// A user message.
    pub fn user(content: &str) -> (m: Message)
        ensures
            m@ == plain_message(Role::User, content@),
    {
        Message { role: Role::User, content: Some(content.to_owned()), tool_calls: None, tool_call_id: None }
    }

    /// An assistant message with text content.
    pub fn assistant(content: &str) -> (m: Message)
        ensures
            m@ == plain_message(Role::Assistant, content@),
    {
        Message { role: Role::Assistant, content: Some(content.to_owned()), tool_calls: None, tool_call_id: None }
    }

    /// An assistant message that carries tool calls and no text.
    pub fn assistant_with_tools(tool_calls: Vec<ToolCall>) -> (m: Message)
        ensures
            m@ == (MessageView {
                role: Role::Assistant,
                content: None,
                tool_calls: Some(views_of(tool_calls@)),
                tool_call_id: None,
            }),
    {
        Message { role: Role::Assistant, content: None, tool_calls: Some(tool_calls), tool_call_id: None }
    }

    /// A tool response message answering the tool call `tool_call_id`.
    pub fn tool_response(tool_call_id: &str, output: &str) -> (m: Message)
        ensures
            m@ == tool_response_message(tool_call_id@, output@),
    {
        Message {
            role: Role::Tool,
            content: Some(output.to_owned()),
            tool_calls: None,
            tool_call_id: Some(tool_call_id.to_owned()),
        }
    }
}


} // verus!
