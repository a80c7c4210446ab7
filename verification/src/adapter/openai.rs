use vstd::prelude::*;

use crate::adapter::{AdapterError, StreamItem, StreamItemView};
use crate::models::message::{opt_view, views_of};
use crate::keyed::str_eq;
use crate::text::{char_count, concat, concat3, ends_with, has_suffix, trim_end_char, trim_end_matching, trim_white_space, trimmed};

verus! {

/// The chat-completions URL for an upstream endpoint: the endpoint without trailing `/`,
/// kept as it is when it already ends in `/chat/completions`, extended by
/// `/chat/completions` when it ends in `/v1`, else by `/v1/chat/completions`.
pub open spec fn completions_url_for(endpoint: Seq<char>) -> Seq<char> {
    let clean = trim_end_char(endpoint, '/');
    if has_suffix(clean, "/chat/completions"@) {
        clean
    } else if has_suffix(clean, "/v1"@) {
        clean + "/chat/completions"@
    } else {
        clean + "/v1/chat/completions"@
    }
}

/// The chat-completions URL for an upstream endpoint.
pub fn completions_url(endpoint: &str) -> (r: String)
    ensures
        r@ == completions_url_for(endpoint@),
{
    let clean = trim_end_matching(endpoint, '/');
    if ends_with(clean.as_str(), "/chat/completions") {
        clean
    } else if ends_with(clean.as_str(), "/v1") {
        concat(clean.as_str(), "/chat/completions")
    } else {
        concat(clean.as_str(), "/v1/chat/completions")
    }
}

/// The liveness URL of an upstream endpoint: the endpoint without trailing `/`, then `/health`.
pub fn adapter_health_url(endpoint: &str) -> (r: String)
    ensures
        r@ == trim_end_char(endpoint@, '/') + "/health"@,
{
    let clean = trim_end_matching(endpoint, '/');
    concat(clean.as_str(), "/health")
}

/// The error for an upstream answer with a non-success status (`status` as rendered by the
/// HTTP client, such as `404 Not Found`) and body `body`.
pub fn upstream_status_error(status: &str, body: &str) -> (r: AdapterError)
    ensures
        r matches AdapterError::Provider(m) && m@ == "Upstream returned HTTP "@ + status@ + ": "@ + body@,
{
    let head = concat3("Upstream returned HTTP ", status, ": ");
    AdapterError::Provider(concat(head.as_str(), body))
}

/// What the data of one server-sent event holds.
#[derive(Debug)]
pub enum EventData {
    /// Nothing but white space: no items.
    Empty,
    /// The end marker `[DONE]`.
    Done,
    /// Anything else, trimmed: a completion chunk to be decoded.
    Chunk(String),
}

/// Classifies the data of one server-sent event, once trimmed.
pub fn classify_event_data(data: &str) -> (r: EventData)
    ensures
        match r {
            EventData::Empty => trimmed(data@).len() == 0,
            EventData::Done => trimmed(data@) == "[DONE]"@,
            EventData::Chunk(t) => t@ == trimmed(data@) && t@.len() > 0 && t@ != "[DONE]"@,
        },
{
    let t = trim_white_space(data);
    if char_count(t.as_str()) == 0 {
        EventData::Empty
    } else if str_eq(t.as_str(), "[DONE]") {
        EventData::Done
    } else {
        EventData::Chunk(t)
    }
}

/// One tool call piece of a completion chunk, as decoded: each field absent when the chunk
/// does not carry it with the expected JSON type.
#[derive(Debug)]
pub struct ChunkToolCall {
    pub index: Option<u64>,
    pub id: Option<String>,
    pub name: Option<String>,
    pub arguments: Option<String>,
}

/// The first choice of a completion chunk, as decoded.
#[derive(Debug)]
pub struct ChunkChoice {
    pub content: Option<String>,
    /// The tool call pieces (empty when the chunk carries no array of them).
    pub tool_calls: Vec<ChunkToolCall>,
    pub finish_reason: Option<String>,
}

/// The mathematical content of a decoded tool call piece.
pub struct ChunkToolCallView {
    pub index: Option<u64>,
    pub id: Option<Seq<char>>,
    pub name: Option<Seq<char>>,
    pub arguments: Option<Seq<char>>,
}

impl View for ChunkToolCall {
    type V = ChunkToolCallView;

    open spec fn view(&self) -> ChunkToolCallView {
        ChunkToolCallView {
            index: self.index,
            id: opt_view(self.id),
            name: opt_view(self.name),
            arguments: opt_view(self.arguments),
        }
    }
}

/// The mathematical content of a decoded first choice.
pub struct ChunkChoiceView {
    pub content: Option<Seq<char>>,
    pub tool_calls: Seq<ChunkToolCallView>,
    pub finish_reason: Option<Seq<char>>,
}

impl View for ChunkChoice {
    type V = ChunkChoiceView;

    open spec fn view(&self) -> ChunkChoiceView {
        ChunkChoiceView {
            content: opt_view(self.content),
            tool_calls: views_of(self.tool_calls@),
            finish_reason: opt_view(self.finish_reason),
        }
    }
}

/// The view of a decoding outcome.
pub open spec fn decoded_view(r: Option<Option<ChunkChoice>>) -> Option<Option<ChunkChoiceView>> {
    match r {
        Some(Some(c)) => Some(Some(c@)),
        Some(None) => Some(None),
        None => None,
    }
}

/// What decoding the chunk text `text` with `serde_json` gives: `None` when it is not one
/// JSON value; else the first element of its `choices` array, if any, with the string
/// `delta.content`, the pieces of the `delta.tool_calls` array (`index` as an unsigned
/// integer, `id`, `function.name` and `function.arguments` as strings) and the string
/// `finish_reason`, each field absent when it is missing or of another JSON type.
pub uninterp spec fn decoded_chunk(text: Seq<char>) -> Option<Option<ChunkChoiceView>>;

/// Reads `text` with `serde_json::from_str::<Value>` and picks out the first choice with the
/// `serde_json::Value` accessors (`get`, `pointer`, `as_str`, `as_u64`, `as_array`). The outcome depends
/// on `text` alone; which texts are JSON, and how, is left to the name `decoded_chunk`.
#[verifier::external_body]
fn decode_chunk(text: &str) -> (r: Option<Option<ChunkChoice>>)
    ensures
        decoded_view(r) == decoded_chunk(text@),
{
    let v: serde_json::Value = serde_json::from_str(text).ok()?;
    let Some(c) = v.get("choices").and_then(|c| c.get(0)) else { return Some(None) };
    let s = |x: &serde_json::Value, p: &str| x.pointer(p)?.as_str().map(String::from);
    let calls = c.pointer("/delta/tool_calls").and_then(|a| a.as_array()).into_iter().flatten().map(|t| ChunkToolCall {
        index: t.pointer("/index").and_then(serde_json::Value::as_u64), id: s(t, "/id"),
        name: s(t, "/function/name"), arguments: s(t, "/function/arguments") }).collect();
    Some(Some(ChunkChoice { content: s(c, "/delta/content"), tool_calls: calls, finish_reason: s(c, "/finish_reason") }))
}

/// The stream item of one tool call piece: position 0 and empty argument text when absent.
pub open spec fn tool_piece_item(p: ChunkToolCallView) -> StreamItemView {
    StreamItemView::ToolCallDelta {
        index: match p.index {
            Some(i) => i as usize,
            None => 0,
        },
        id: p.id,
        name: p.name,
        arguments_delta: match p.arguments {
            Some(a) => a,
            None => Seq::empty(),
        },
    }
}

/// The stream items of a chunk's first choice: a token for non-empty content, then one
/// tool call piece each, then the finish reason unless it is empty or `null`.
pub open spec fn choice_items(
    content: Option<Seq<char>>,
    tool_calls: Seq<ChunkToolCallView>,
    finish_reason: Option<Seq<char>>,
) -> Seq<StreamItemView> {
    let token: Seq<StreamItemView> = match content {
        Some(c) => if c.len() > 0 { seq![StreamItemView::Token(c)] } else { Seq::empty() },
        None => Seq::empty(),
    };
    let finish: Seq<StreamItemView> = match finish_reason {
        Some(r) => if r.len() > 0 && r != "null"@ {
            seq![StreamItemView::Finish { reason: r }]
        } else {
            Seq::empty()
        },
        None => Seq::empty(),
    };
    token + tool_calls.map_values(|p: ChunkToolCallView| tool_piece_item(p)) + finish
}

/// Copies an optional string.
fn copy_opt(s: &Option<String>) -> (r: Option<String>)
    ensures
        opt_view(r) == opt_view(*s),
{
    match s {
        Some(t) => Some(t.clone()),
        None => None,
    }
}

/// The stream items of a decoded chunk: none when the chunk has no first choice.
pub fn chunk_items(choice: Option<&ChunkChoice>) -> (r: Vec<StreamItem>)
    ensures
        match choice {
            Some(c) => views_of(r@) == choice_items(opt_view(c.content), views_of(c.tool_calls@), opt_view(c.finish_reason)),
            None => r@.len() == 0,
        },
{
    let mut items: Vec<StreamItem> = Vec::new();
    let c = match choice {
        Some(c) => c,
        None => return items,
    };
    if let Some(content) = &c.content {
        if char_count(content.as_str()) > 0 {
            items.push(StreamItem::Token(content.clone()));
        }
    }
    let ghost first = views_of(items@);
    proof {
        match opt_view(c.content) {
            Some(t) => {
                if t.len() > 0 {
                    assert(first =~= seq![StreamItemView::Token(t)]);
                } else {
                    assert(first =~= Seq::<StreamItemView>::empty());
                }
            },
            None => {
                assert(first =~= Seq::<StreamItemView>::empty());
            },
        }
    }
    let ghost pieces = views_of(c.tool_calls@).map_values(|p: ChunkToolCallView| tool_piece_item(p));
    let mut k: usize = 0;
    while k < c.tool_calls.len()
        invariant
            k <= c.tool_calls.len(),
            pieces == views_of(c.tool_calls@).map_values(|p: ChunkToolCallView| tool_piece_item(p)),
            views_of(items@) == first + pieces.take(k as int),
        decreases c.tool_calls.len() - k,
    {
        let p = &c.tool_calls[k];
        let index: usize = match p.index {
            Some(i) => i as usize,
            None => 0,
        };
        let arguments_delta = match &p.arguments {
            Some(a) => a.clone(),
            None => String::new(),
        };
        let item = StreamItem::ToolCallDelta {
            index,
            id: copy_opt(&p.id),
            name: copy_opt(&p.name),
            arguments_delta,
        };
        proof {
            assert(item@ == tool_piece_item(p@));
            assert(pieces[k as int] == tool_piece_item(views_of(c.tool_calls@)[k as int]));
            lemma_items_push(items@, item);
            assert(pieces.take(k + 1) =~= pieces.take(k as int).push(pieces[k as int]));
        }
        items.push(item);
        k = k + 1;
    }
    assert(pieces.take(c.tool_calls.len() as int) =~= pieces);
    let ghost before = views_of(items@);
    if let Some(reason) = &c.finish_reason {
        if char_count(reason.as_str()) > 0 && !str_eq(reason.as_str(), "null") {
            let item = StreamItem::Finish { reason: reason.clone() };
            proof {
                lemma_items_push(items@, item);
            }
            items.push(item);
        }
    }
    proof {
        match opt_view(c.finish_reason) {
            Some(t) => {
                if t.len() > 0 && t != "null"@ {
                    assert(views_of(items@) =~= before + seq![StreamItemView::Finish { reason: t }]);
                } else {
                    assert(views_of(items@) =~= before + Seq::<StreamItemView>::empty());
                }
            },
            None => {
                assert(views_of(items@) =~= before + Seq::<StreamItemView>::empty());
            },
        }
    }
    items
}

/// Views of a list of stream items extended by one.
proof fn lemma_items_push(s: Seq<StreamItem>, x: StreamItem)
    ensures
        views_of(s.push(x)) == views_of(s).push(x@),
{
    assert(views_of(s.push(x)) =~= views_of(s).push(x@));
}

/// The stream items of one server-sent event's data: none for blank data, a `stop` finish
/// for `[DONE]`, else the items of the decoded chunk's first choice (none when the chunk is
/// not JSON or has no choice).
pub open spec fn data_items(data: Seq<char>) -> Seq<StreamItemView> {
    let t = trimmed(data);
    if t.len() == 0 {
        Seq::empty()
    } else if t == "[DONE]"@ {
        seq![StreamItemView::Finish { reason: "stop"@ }]
    } else {
        match decoded_chunk(t) {
            Some(Some(c)) => choice_items(c.content, c.tool_calls, c.finish_reason),
            _ => Seq::empty(),
        }
    }
}

/// The stream items of one server-sent event's data, each as a successful item.
pub fn items_for_data(data: &str) -> (r: Vec<Result<StreamItem, AdapterError>>)
    ensures
        r@.len() == data_items(data@).len(),
        forall|i: int| 0 <= i < r@.len() ==> (#[trigger] r@[i] matches Ok(x) && x@ == data_items(data@)[i]),
{
    let items: Vec<StreamItem> = match classify_event_data(data) {
        EventData::Empty => Vec::new(),
        EventData::Done => {
            let mut v: Vec<StreamItem> = Vec::new();
            v.push(StreamItem::Finish { reason: "stop".to_string() });
            proof {
                reveal_strlit("[DONE]");
            }
            v
        },
        EventData::Chunk(text) => {
            let decoded = decode_chunk(text.as_str());
            match decoded {
                Some(Some(c)) => chunk_items(Some(&c)),
                _ => Vec::new(),
            }
        },
    };
    proof {
        assert(views_of(items@) =~= data_items(data@));
    }
    let ghost target = data_items(data@);
    let mut out: Vec<Result<StreamItem, AdapterError>> = Vec::new();
    let mut items = items;
    while items.len() > 0
        invariant
            out@.len() + items@.len() == target.len(),
            views_of(items@) == target.subrange(out@.len() as int, target.len() as int),
            forall|j: int| 0 <= j < out@.len() ==> (#[trigger] out@[j] matches Ok(x) && x@ == target[j]),
        decreases items.len(),
    {
        let ghost before = items@;
        let x = items.remove(0);
        proof {
            assert(x@ == views_of(before)[0]);
            assert(views_of(items@) =~= views_of(before).drop_first());
        }
        out.push(Ok(x));
    }
    out
}

/// The items of a chunk's choice: a token for non-empty content first, then exactly one
/// tool call piece per piece of the chunk, in order, each with that piece's position (0 when
/// absent), id, name and argument text (empty when absent), then the finish reason when it
/// is neither empty nor `null`.
pub proof fn law_choice_items_one_delta_per_piece(
    content: Option<Seq<char>>,
    tool_calls: Seq<ChunkToolCallView>,
    finish_reason: Option<Seq<char>>,
)
    ensures
        ({
            let items = choice_items(content, tool_calls, finish_reason);
            let t: int = if content matches Some(c) && c.len() > 0 { 1 } else { 0 };
            let f: int = if finish_reason matches Some(r) && r.len() > 0 && r != "null"@ { 1 } else { 0 };
            &&& items.len() == t + tool_calls.len() + f
            &&& (content matches Some(c) ==> (c.len() > 0 ==> items[0] == StreamItemView::Token(c)))
            &&& forall|j: int| 0 <= j < tool_calls.len() ==> items[t + j] == StreamItemView::ToolCallDelta {
                index: match (#[trigger] tool_calls[j]).index {
                    Some(i) => i as usize,
                    None => 0,
                },
                id: tool_calls[j].id,
                name: tool_calls[j].name,
                arguments_delta: match tool_calls[j].arguments {
                    Some(a) => a,
                    None => Seq::empty(),
                },
            }
            &&& (finish_reason matches Some(r) ==> (r.len() > 0 && r != "null"@ ==> items[items.len() - 1]
                == StreamItemView::Finish { reason: r }))
        }),
{
    let pieces = tool_calls.map_values(|p: ChunkToolCallView| tool_piece_item(p));
    let items = choice_items(content, tool_calls, finish_reason);
    let t: int = if content matches Some(c) && c.len() > 0 { 1 } else { 0 };
    assert forall|j: int| 0 <= j < tool_calls.len() implies items[t + j] == StreamItemView::ToolCallDelta {
        index: match (#[trigger] tool_calls[j]).index {
            Some(i) => i as usize,
            None => 0,
        },
        id: tool_calls[j].id,
        name: tool_calls[j].name,
        arguments_delta: match tool_calls[j].arguments {
            Some(a) => a,
            None => Seq::empty(),
        },
    } by {
        assert(items[t + j] == pieces[j]);
    }
}

} // verus!
