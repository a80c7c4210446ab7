use episod::models::episode::{Episode, PendingApproval};
use episod::models::message::{FunctionCall, Message, ToolCall};
use episod::models::tool::ToolExecutionResult;

#[test]
fn test_dag_branching_and_linearization() {
    let mut ep = Episode::new("meta-llama/Llama-3.1-8B", Some("You are an AI.".into()));

    // Turn 1
    let t1 = ep.append_turn(Some(Message::user("Hello")), Some(Message::assistant("Hi there!")), vec![], vec![]);

    // Turn 2
    let t2 = ep.append_turn(
        Some(Message::user("Tell me a joke")),
        Some(Message::assistant("Why did the chicken cross the road?")),
        vec![],
        vec![],
    );

    assert_eq!(ep.active_leaf_id, Some(t2.clone()));

    // Fork back to Turn 1
    ep.fork(&t1).unwrap();
    assert_eq!(ep.active_leaf_id, Some(t1.clone()));

    // Turn 3 on the branched fork
    let t3 = ep.append_turn(
        Some(Message::user("Write a poem")),
        Some(Message::assistant("Roses are red...")),
        vec![],
        vec![],
    );

    // Turn 1 must have 2 children: t2 and t3
    let node1 = ep.node(&t1).unwrap();
    assert_eq!(node1.children_ids.len(), 2);
    assert!(node1.children_ids.contains(&t2));
    assert!(node1.children_ids.contains(&t3));

    // Linearize from branch t3: should only contain system + t1 + t3 (t2 must NOT be present!)
    let history = ep.linearize_history(Some(t3.as_str()));
    assert_eq!(history.len(), 5);
    assert_eq!(history[0].content, Some("You are an AI.".into()));
    assert_eq!(history[1].content, Some("Hello".into()));
    assert_eq!(history[2].content, Some("Hi there!".into()));
    assert_eq!(history[3].content, Some("Write a poem".into()));
    assert_eq!(history[4].content, Some("Roses are red...".into()));
}

#[test]
fn fork_to_unknown_node_fails_and_changes_nothing() {
    let mut ep = Episode::new("m", None);
    let t1 = ep.append_turn(Some(Message::user("a")), None, vec![], vec![]);
    let err = ep.fork("turn_missing").unwrap_err();
    assert_eq!(err, "Node turn_missing not found in episode");
    assert_eq!(ep.active_leaf_id, Some(t1));
}

#[test]
fn first_turn_becomes_root_and_ids_are_generated() {
    let mut ep = Episode::new("m", None);
    assert!(ep.id.starts_with("ep_"));
    assert_eq!(ep.id.len(), 35);
    let t1 = ep.append_turn(None, None, vec![], vec![]);
    assert!(t1.starts_with("turn_"));
    assert_eq!(ep.root_node_id, Some(t1.clone()));
    let t2 = ep.append_turn(None, None, vec![], vec![]);
    assert_eq!(ep.node(&t2).unwrap().parent_id, Some(t1.clone()));
    assert_eq!(ep.root_node_id, Some(t1));
}

#[test]
fn tool_messages_are_replayed_in_history() {
    let mut ep = Episode::create("ep_x".to_string(), "m", None, 0);
    let call = ToolCall {
        id: "call_1".to_string(),
        call_type: "function".to_string(),
        function: FunctionCall { name: "calculator".to_string(), arguments: "{}".to_string() },
    };
    let result = ToolExecutionResult {
        tool_call_id: "call_1".to_string(),
        tool_name: "calculator".to_string(),
        output: "42".to_string(),
        is_error: false,
    };
    ep.append_turn_at("turn_a".to_string(), 1, Some(Message::user("q")), Some(Message::assistant("a")), vec![call], vec![result], None, None);
    let h = ep.linearize_history(None);
    let roles: Vec<String> = h.iter().map(|m| format!("{:?}", m.role)).collect();
    assert_eq!(roles, vec!["User", "Assistant", "Tool"]);
    assert_eq!(h[2].tool_call_id.as_deref(), Some("call_1"));
    assert_eq!(h[2].content.as_deref(), Some("42"));
}

#[test]
fn pending_approval_is_taken_once() {
    let mut ep = Episode::new("m", None);
    let call = ToolCall {
        id: "call_9".to_string(),
        call_type: "function".to_string(),
        function: FunctionCall { name: "system_command".to_string(), arguments: "{}".to_string() },
    };
    ep.insert_pending_approval(PendingApproval { turn_id: "turn_1".to_string(), tool_call: call, created_at: 3 });
    assert!(ep.has_pending_approval("call_9"));
    let taken = ep.take_pending_approval("call_9").unwrap();
    assert_eq!(taken.turn_id, "turn_1");
    assert!(ep.take_pending_approval("call_9").is_none());
    assert!(!ep.has_pending_approval("call_9"));
}

#[test]
fn appending_keeps_earlier_histories() {
    let mut ep = Episode::new("m", Some("sys".to_string()));
    let t1 = ep.append_turn(Some(Message::user("one")), Some(Message::assistant("1")), vec![], vec![]);
    let before: Vec<Option<String>> = ep.linearize_history(Some(&t1)).iter().map(|m| m.content.clone()).collect();
    let _t2 = ep.append_turn(Some(Message::user("two")), Some(Message::assistant("2")), vec![], vec![]);
    let after: Vec<Option<String>> = ep.linearize_history(Some(&t1)).iter().map(|m| m.content.clone()).collect();
    assert_eq!(before, after);
    assert_eq!(ep.linearize_history(None).len(), 5);
}
