use episod::adapter::mock::{mock_stream_items, MockAdapter, MockBehavior, MockToolCall};
use episod::adapter::openai::{
    adapter_health_url, chunk_items, classify_event_data, completions_url, upstream_status_error, ChunkChoice,
    ChunkToolCall, EventData, items_for_data,
};
use episod::adapter::{AdapterError, StreamItem};

fn tokens(items: &[StreamItem]) -> Vec<String> {
    items
        .iter()
        .filter_map(|i| match i {
            StreamItem::Token(t) => Some(t.clone()),
            _ => None,
        })
        .collect()
}

#[test]
fn text_reply_is_streamed_word_by_word() {
    let items = mock_stream_items(MockBehavior::TextReply("The sum is 145.".to_string()));
    assert_eq!(tokens(&items), vec!["The ", "sum ", "is ", "145."]);
    assert!(matches!(items.last(), Some(StreamItem::Finish { reason }) if reason == "stop"));
    let items = mock_stream_items(MockBehavior::TextReply("a  b ".to_string()));
    assert_eq!(tokens(&items), vec!["a ", " ", "b "]);
    let items = mock_stream_items(MockBehavior::TextReply(String::new()));
    assert_eq!(items.len(), 1);
}

#[test]
fn tool_behaviours_stream_tool_pieces() {
    let items = mock_stream_items(MockBehavior::ParallelToolCalls(vec![
        MockToolCall { id: "a".to_string(), name: "x".to_string(), arguments: "{}".to_string() },
        MockToolCall { id: "b".to_string(), name: "y".to_string(), arguments: "[]".to_string() },
    ]));
    assert_eq!(items.len(), 3);
    assert!(matches!(&items[1], StreamItem::ToolCallDelta { index: 1, id: Some(i), .. } if i == "b"));
    assert!(matches!(&items[2], StreamItem::Finish { reason } if reason == "tool_calls"));
    let items = mock_stream_items(MockBehavior::Sequential(vec![]));
    assert_eq!(tokens(&items), vec!["Sequential step"]);
}

#[test]
fn script_answers_in_order_then_defaults() {
    let mut script = MockAdapter::with_behavior(MockBehavior::TextReply("one".to_string()));
    script.add_behavior(MockBehavior::TextReply("two".to_string()));
    assert!(matches!(script.next_behavior(), MockBehavior::TextReply(t) if t == "one"));
    assert!(matches!(script.next_behavior(), MockBehavior::TextReply(t) if t == "two"));
    assert!(matches!(script.next_behavior(), MockBehavior::TextReply(t) if t == "Mock default answer."));
}

#[test]
fn completions_urls() {
    assert_eq!(completions_url("http://h/v1/chat/completions/"), "http://h/v1/chat/completions");
    assert_eq!(completions_url("http://h/v1"), "http://h/v1/chat/completions");
    assert_eq!(completions_url("http://h:8000//"), "http://h:8000/v1/chat/completions");
    assert_eq!(adapter_health_url("http://h:8000/"), "http://h:8000/health");
}

#[test]
fn event_data_is_classified() {
    assert!(matches!(classify_event_data("  \n"), EventData::Empty));
    assert!(matches!(classify_event_data(" [DONE] "), EventData::Done));
    assert!(matches!(classify_event_data(" {\"a\":1} "), EventData::Chunk(t) if t == "{\"a\":1}"));
}

#[test]
fn chunk_items_follow_the_choice() {
    let choice = ChunkChoice {
        content: Some("Hi".to_string()),
        tool_calls: vec![ChunkToolCall { index: None, id: Some("c".to_string()), name: None, arguments: None }],
        finish_reason: Some("null".to_string()),
    };
    let items = chunk_items(Some(&choice));
    assert_eq!(items.len(), 2);
    assert!(matches!(&items[0], StreamItem::Token(t) if t == "Hi"));
    assert!(matches!(&items[1], StreamItem::ToolCallDelta { index: 0, arguments_delta, .. } if arguments_delta.is_empty()));
    let done = ChunkChoice { content: Some(String::new()), tool_calls: vec![], finish_reason: Some("stop".to_string()) };
    let items = chunk_items(Some(&done));
    assert_eq!(items.len(), 1);
    assert!(matches!(&items[0], StreamItem::Finish { reason } if reason == "stop"));
    assert!(chunk_items(None).is_empty());
}

#[test]
fn adapter_error_texts() {
    assert_eq!(AdapterError::Network("x".to_string()).message(), "Network / HTTP error: x");
    assert_eq!(AdapterError::Decode("y".to_string()).message(), "Stream decoding error: y");
    assert_eq!(
        upstream_status_error("502 Bad Gateway", "down").message(),
        "Provider error: Upstream returned HTTP 502 Bad Gateway: down"
    );
}

#[test]
fn sse_data_is_decoded_into_items() {
    let items = items_for_data(r#"{"choices":[{"delta":{"content":"Hel"},"finish_reason":null}]}"#);
    assert_eq!(items.len(), 1);
    match &items[0] {
        Ok(StreamItem::Token(t)) => assert_eq!(t, "Hel"),
        other => panic!("unexpected {:?}", other),
    }
    let done = items_for_data(" [DONE] ");
    assert_eq!(done.len(), 1);
    match &done[0] {
        Ok(StreamItem::Finish { reason }) => assert_eq!(reason, "stop"),
        other => panic!("unexpected {:?}", other),
    }
    assert!(items_for_data("   ").is_empty());
    assert!(items_for_data("not json").is_empty());
    assert!(items_for_data(r#"{"id":"x"}"#).is_empty());
    let calls = items_for_data(
        r#"{"choices":[{"delta":{"tool_calls":[{"index":1,"id":"call_1","function":{"name":"calculator","arguments":"{\"a\""}}]},"finish_reason":"tool_calls"}]}"#,
    );
    assert_eq!(calls.len(), 2);
    match &calls[0] {
        Ok(StreamItem::ToolCallDelta { index, id, name, arguments_delta }) => {
            assert_eq!(*index, 1);
            assert_eq!(id.as_deref(), Some("call_1"));
            assert_eq!(name.as_deref(), Some("calculator"));
            assert_eq!(arguments_delta, "{\"a\"");
        }
        other => panic!("unexpected {:?}", other),
    }
    match &calls[1] {
        Ok(StreamItem::Finish { reason }) => assert_eq!(reason, "tool_calls"),
        other => panic!("unexpected {:?}", other),
    }
}
