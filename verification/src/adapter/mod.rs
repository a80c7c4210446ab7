use vstd::prelude::*;

use crate::models::events::TokenUsage;
use crate::models::message::opt_view;
use crate::text::concat;

pub mod mock;
pub mod openai;

verus! {

/// One item of an upstream completion stream.
#[derive(Debug)]
pub enum StreamItem {
    /// A piece of the assistant's text.
    Token(String),
    /// A piece of the tool call at position `index`: its id and name once they are known,
    /// and the next piece of its argument text.
    ToolCallDelta { index: usize, id: Option<String>, name: Option<String>, arguments_delta: String },
    /// The upstream finished, for `reason`.
    Finish { reason: String },
    /// Token accounting for the completion.
    Usage(TokenUsage),
}

/// The mathematical content of a stream item.
pub enum StreamItemView {
    Token(Seq<char>),
    ToolCallDelta { index: usize, id: Option<Seq<char>>, name: Option<Seq<char>>, arguments_delta: Seq<char> },
    Finish { reason: Seq<char> },
    Usage(TokenUsage),
}

impl View for StreamItem {
    type V = StreamItemView;

    open spec fn view(&self) -> StreamItemView {
        match self {
            StreamItem::Token(t) => StreamItemView::Token(t@),
            StreamItem::ToolCallDelta { index, id, name, arguments_delta } => StreamItemView::ToolCallDelta {
                index: *index,
                id: opt_view(*id),
                name: opt_view(*name),
                arguments_delta: arguments_delta@,
            },
            StreamItem::Finish { reason } => StreamItemView::Finish { reason: reason@ },
            StreamItem::Usage(u) => StreamItemView::Usage(*u),
        }
    }
}

/// Why an upstream call failed.
#[derive(Debug)]
pub enum AdapterError {
    /// The request could not be sent or answered.
    Network(String),
    /// The answer could not be decoded.
    Decode(String),
    /// The provider answered with an error.
    Provider(String),
}

/// The text of an adapter error.
pub open spec fn adapter_error_text(e: AdapterError) -> Seq<char> {
    match e {
        AdapterError::Network(m) => "Network / HTTP error: "@ + m@,
        AdapterError::Decode(m) => "Stream decoding error: "@ + m@,
        AdapterError::Provider(m) => "Provider error: "@ + m@,
    }
}

impl AdapterError {
    /// The error's text, as it is shown to users.
    pub fn message(&self) -> (r: String)
        ensures
            r@ == adapter_error_text(*self),
    {
        match self {
            AdapterError::Network(m) => concat("Network / HTTP error: ", m.as_str()),
            AdapterError::Decode(m) => concat("Stream decoding error: ", m.as_str()),
            AdapterError::Provider(m) => concat("Provider error: ", m.as_str()),
        }
    }
}

} // verus!
