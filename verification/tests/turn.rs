use episod::adapter::mock::{mock_stream_items, MockAdapter, MockBehavior, MockToolCall};
use episod::guardrails::context::ContextBudgetManager;
use episod::guardrails::tools::ToolGuardrail;
use episod::models::episode::Episode;
use episod::adapter::StreamItem;
use episod::models::events::{AgentEvent, TokenUsage, ToolArguments, TurnTiming};
use episod::models::tool::ToolDefinition;
use episod::server::approval::{approval_result, approval_status, take_approval};
use episod::server::requests::ApprovalRequest;
use episod::server::turn::{TurnAction, TurnMachine, TurnPhase};
use episod::tools::builtin::{calculator_plan, system_command_output, ArithOp, CalcPlan};
use episod::tools::policy::ToolPolicy;
use episod::tools::registry::ToolRegistry;

/// What the tools of these scenarios answer.
fn run_tool(name: &str, raw: &str) -> Result<String, String> {
    let args: serde_json::Value = serde_json::from_str(raw).unwrap_or(serde_json::Value::Object(serde_json::Map::new()));
    match name {
        "calculator" => {
            let expr = args.get("expression").and_then(|v| v.as_str()).unwrap_or("");
            match calculator_plan(expr) {
                CalcPlan::Apply { op, left, right } => {
                    let a: f64 = left.parse().map_err(|_| "Invalid number".to_string())?;
                    let b: f64 = right.parse().map_err(|_| "Invalid number".to_string())?;
                    Ok(match op {
                        ArithOp::Add => a + b,
                        ArithOp::Sub => a - b,
                        ArithOp::Mul => a * b,
                        ArithOp::Div => a / b,
                    }
                    .to_string())
                }
                CalcPlan::Echo(t) => Ok(t),
            }
        }
        "system_command" => {
            let cmd = args.get("command").and_then(|v| v.as_str()).unwrap_or("");
            Ok(system_command_output(cmd))
        }
        "verbose_tool" => Ok("DATA_BLOCK_".repeat(5000)),
        _ => Err(format!("Tool '{}' not found in registry", name)),
    }
}

/// Runs a turn to its end against a scripted upstream, as the gateway does.
fn run_turn(m: &mut TurnMachine, reg: &ToolRegistry, script: &mut MockAdapter, guard: &ToolGuardrail) -> Vec<AgentEvent> {
    let mut events = Vec::new();
    let mut action = m.begin();
    loop {
        match action {
            TurnAction::Infer => {
                for item in mock_stream_items(script.next_behavior()) {
                    if let Some(e) = m.on_stream_item(item) {
                        events.push(e);
                    }
                }
                let (evs, a) = m.end_stream(reg);
                events.extend(evs);
                action = a;
            }
            TurnAction::Execute(call) => {
                let out = guard.settle_execution(Some(run_tool(&call.function.name, &call.function.arguments)));
                let (evs, a) = m.on_tool_output(reg, 0, out);
                events.extend(evs);
                action = a;
            }
            TurnAction::Complete => {
                events.push(m.complete(TurnTiming { ttft_ms: Some(12), total_ms: 40 }));
                return events;
            }
        }
    }
}

fn names(events: &[AgentEvent]) -> Vec<&'static str> {
    events.iter().map(|e| e.event_type()).collect()
}

fn start(ep: Episode, message: &str) -> TurnMachine {
    let (m, started) = TurnMachine::start(
        ep,
        Some(message.to_string()),
        None,
        true,
        5,
        "turn_test".to_string(),
        &ContextBudgetManager::default(),
    );
    assert_eq!(started.event_type(), "turn_started");
    m
}

#[test]
fn test_turn_streaming_and_hitl_approval() {
    let mut script = MockAdapter::new();
    script.add_behavior(MockBehavior::ToolCall {
        id: "call_sys_99".to_string(),
        name: "system_command".to_string(),
        arguments: r#"{"command":"rm -rf /tmp/cache"}"#.to_string(),
    });
    let reg = ToolRegistry::new();
    let mut m = start(Episode::new("test-model", None), "Clear the temporary cache please.");
    let events = run_turn(&mut m, &reg, &mut script, &ToolGuardrail::default());
    let n = names(&events);
    assert!(n.contains(&"approval_required"));
    assert!(!n.contains(&"tool_execution_started"));
    assert!(events.iter().any(|e| matches!(e, AgentEvent::ApprovalRequired { tool_name, .. } if tool_name == "system_command")));
    let mut ep = m.into_episode();
    assert!(ep.has_pending_approval("call_sys_99"));

    let req = ApprovalRequest { tool_call_id: "call_sys_99".to_string(), approved: true, feedback: None };
    let pending = take_approval(&mut ep, &req.tool_call_id).unwrap();
    let outcome = run_tool(&pending.tool_call.function.name, &pending.tool_call.function.arguments);
    let result = approval_result(&req, &pending, Some(outcome));
    assert_eq!(approval_status(req.approved), "approved");
    assert!(result.output.contains("Executed command"));
    assert!(!result.is_error);
    assert!(!ep.has_pending_approval("call_sys_99"));
    assert_eq!(
        take_approval(&mut ep, "call_sys_99").unwrap_err(),
        "No pending approval found for tool_call_id 'call_sys_99'"
    );
}

#[test]
fn test_auto_approve_tool_execution_loop() {
    let mut script = MockAdapter::new();
    script.add_behavior(MockBehavior::ToolCall {
        id: "call_calc_1".to_string(),
        name: "calculator".to_string(),
        arguments: r#"{"expression":"100 + 45"}"#.to_string(),
    });
    script.add_behavior(MockBehavior::TextReply("The sum is 145.".to_string()));
    let reg = ToolRegistry::new();
    let mut m = start(Episode::new("test-model", None), "Calculate 100 + 45");
    let events = run_turn(&mut m, &reg, &mut script, &ToolGuardrail::default());
    let n = names(&events);
    assert!(n.contains(&"tool_execution_started"));
    assert!(n.contains(&"tool_execution_completed"));
    assert_eq!(*n.last().unwrap(), "turn_completed");
    assert!(events.iter().any(|e| matches!(e, AgentEvent::ToolExecutionCompleted { output, .. } if output == "145")));
    let ep = m.into_episode();
    let leaf = ep.node(ep.active_leaf_id.as_ref().unwrap()).unwrap();
    assert_eq!(leaf.tool_calls.len(), 1);
    assert_eq!(leaf.tool_results[0].output, "145");
    assert_eq!(leaf.assistant_message.as_ref().unwrap().content.as_deref(), Some("The sum is 145."));
    assert_eq!(leaf.user_message.as_ref().unwrap().content.as_deref(), Some("Calculate 100 + 45"));
}

#[test]
fn test_parallel_tool_calling_execution() {
    let mut script = MockAdapter::new();
    script.add_behavior(MockBehavior::ParallelToolCalls(vec![
        MockToolCall {
            id: "call_par_1".to_string(),
            name: "calculator".to_string(),
            arguments: r#"{"expression":"10 + 20"}"#.to_string(),
        },
        MockToolCall {
            id: "call_par_2".to_string(),
            name: "calculator".to_string(),
            arguments: r#"{"expression":"30 * 4"}"#.to_string(),
        },
    ]));
    script.add_behavior(MockBehavior::TextReply("Calculated 30 and 120.".to_string()));
    let reg = ToolRegistry::new();
    let mut m = start(Episode::new("test-model", None), "Calculate both expressions in parallel.");
    let _events = run_turn(&mut m, &reg, &mut script, &ToolGuardrail::default());
    let ep = m.into_episode();
    let leaf = ep.node(ep.active_leaf_id.as_ref().unwrap()).unwrap();
    assert_eq!(leaf.tool_calls.len(), 2);
    assert_eq!(leaf.tool_calls[0].id, "call_par_1");
    assert_eq!(leaf.tool_calls[1].id, "call_par_2");
    assert_eq!(leaf.tool_results.len(), 2);
    assert_eq!(leaf.tool_results[0].output, "30");
    assert_eq!(leaf.tool_results[1].output, "120");
}

#[test]
fn test_tool_guardrail_output_truncation_end_to_end() {
    let mut script = MockAdapter::new();
    script.add_behavior(MockBehavior::ToolCall {
        id: "call_verbose_1".to_string(),
        name: "verbose_tool".to_string(),
        arguments: "{}".to_string(),
    });
    script.add_behavior(MockBehavior::TextReply("Finished.".to_string()));
    let mut reg = ToolRegistry::new();
    reg.register_tool(ToolDefinition::new_function("verbose_tool", "Returns huge data", "{}"), ToolPolicy::AutoApprove);
    let mut m = start(Episode::new("test-model", None), "Run verbose tool");
    let events = run_turn(&mut m, &reg, &mut script, &ToolGuardrail::default());
    assert!(events.iter().any(|e| matches!(e, AgentEvent::ToolExecutionCompleted { output, .. } if output.contains("output truncated by guardrail"))));
    let ep = m.into_episode();
    let leaf = ep.node(ep.active_leaf_id.as_ref().unwrap()).unwrap();
    assert!(leaf.tool_results[0].output.len() <= 8500);
}

#[test]
fn denied_tools_are_not_run_and_end_the_turn() {
    let mut script = MockAdapter::new();
    script.add_behavior(MockBehavior::ToolCall { id: "c1".to_string(), name: "custom".to_string(), arguments: "{}".to_string() });
    let mut reg = ToolRegistry::new();
    reg.register_tool(ToolDefinition::new_function("custom", "test", "{}"), ToolPolicy::Deny);
    let mut m = start(Episode::new("m", None), "go");
    let events = run_turn(&mut m, &reg, &mut script, &ToolGuardrail::default());
    assert!(!names(&events).contains(&"tool_execution_started"));
    let ep = m.into_episode();
    let leaf = ep.node(ep.active_leaf_id.as_ref().unwrap()).unwrap();
    assert_eq!(leaf.tool_results[0].output, "Tool execution omitted or denied by policy");
    assert!(leaf.tool_results[0].is_error);
}

#[test]
fn tools_do_not_run_when_the_request_forbids_it() {
    let mut script = MockAdapter::new();
    script.add_behavior(MockBehavior::ToolCall {
        id: "c1".to_string(),
        name: "calculator".to_string(),
        arguments: r#"{"expression":"1+1"}"#.to_string(),
    });
    let reg = ToolRegistry::new();
    let (mut m, _) = TurnMachine::start(Episode::new("m", None), Some("go".to_string()), None, false, 5, "t".to_string(), &ContextBudgetManager::default());
    assert!(m.tools_offered(&reg).is_empty());
    let events = run_turn(&mut m, &reg, &mut script, &ToolGuardrail::default());
    assert!(!names(&events).contains(&"tool_execution_started"));
}

#[test]
fn iterations_are_bounded() {
    let mut script = MockAdapter::new();
    for i in 0..10 {
        script.add_behavior(MockBehavior::ToolCall {
            id: format!("c{}", i),
            name: "calculator".to_string(),
            arguments: r#"{"expression":"1+1"}"#.to_string(),
        });
    }
    let reg = ToolRegistry::new();
    let (mut m, _) = TurnMachine::start(Episode::new("m", None), Some("loop".to_string()), None, true, 2, "t".to_string(), &ContextBudgetManager::default());
    let events = run_turn(&mut m, &reg, &mut script, &ToolGuardrail::default());
    let runs = names(&events).iter().filter(|n| **n == "tool_execution_started").count();
    assert_eq!(runs, 2);
    assert_eq!(m.phase(), TurnPhase::Stopped);
}

#[test]
fn streamed_pieces_are_joined_per_position() {
    let reg = ToolRegistry::new();
    let (mut m, _) = TurnMachine::start(Episode::new("m", None), None, None, true, 5, "t".to_string(), &ContextBudgetManager::default());
    assert!(matches!(m.begin(), TurnAction::Infer));
    m.on_tool_call_delta(1, None, Some("calculator".to_string()), "{\"expression\":".to_string());
    m.on_tool_call_delta(0, Some("call_a".to_string()), Some("calculator".to_string()), "{\"expr".to_string());
    m.on_tool_call_delta(1, Some("call_b".to_string()), None, "\"2*3\"}".to_string());
    m.on_tool_call_delta(0, None, None, "ession\":\"1+2\"}".to_string());
    let (events, action) = m.end_stream_with(&reg, 0, &vec!["call_x".to_string(), "call_y".to_string()]);
    match &events[0] {
        AgentEvent::ToolCallCompleted { tool_call_id, arguments: ToolArguments::Json(a), .. } => {
            assert_eq!(tool_call_id, "call_a");
            assert_eq!(a, "{\"expression\":\"1+2\"}");
        }
        other => panic!("unexpected {:?}", other),
    }
    match &events[1] {
        AgentEvent::ToolCallCompleted { tool_call_id, arguments: ToolArguments::Json(a), .. } => {
            assert_eq!(tool_call_id, "call_b");
            assert_eq!(a, "{\"expression\":\"2*3\"}");
        }
        other => panic!("unexpected {:?}", other),
    }
    assert!(matches!(action, TurnAction::Execute(_)));
}

#[test]
fn missing_ids_and_names_are_filled_in() {
    let reg = ToolRegistry::new();
    let (mut m, _) = TurnMachine::start(Episode::new("m", None), None, None, true, 5, "t".to_string(), &ContextBudgetManager::default());
    m.begin();
    m.on_tool_call_delta(0, None, None, "not json".to_string());
    let (events, _) = m.end_stream(&reg);
    match &events[0] {
        AgentEvent::ToolCallCompleted { tool_call_id, name, arguments, .. } => {
            assert!(tool_call_id.starts_with("call_"));
            assert_eq!(tool_call_id.len(), 37);
            assert_eq!(name, "unknown");
            assert!(matches!(arguments, ToolArguments::Raw(t) if t == "not json"));
        }
        other => panic!("unexpected {:?}", other),
    }
}

#[test]
fn failed_tool_is_reported_as_error() {
    let mut script = MockAdapter::new();
    script.add_behavior(MockBehavior::ToolCall { id: "c1".to_string(), name: "ghost".to_string(), arguments: "{}".to_string() });
    let reg = ToolRegistry::new();
    let mut m = start(Episode::new("m", None), "go");
    let events = run_turn(&mut m, &reg, &mut script, &ToolGuardrail::default());
    assert!(events.iter().any(|e| matches!(e, AgentEvent::ToolExecutionCompleted { output, is_error: true, .. } if output == "Tool execution error: Tool 'ghost' not found in registry")));
}

#[test]
fn errors_stop_the_turn() {
    let (mut m, _) = TurnMachine::start(Episode::new("m", None), None, None, true, 5, "t1".to_string(), &ContextBudgetManager::default());
    match m.no_backend() {
        AgentEvent::Error { turn_id, message } => {
            assert_eq!(turn_id.as_deref(), Some("t1"));
            assert_eq!(message, "No healthy inference backend replicas available in cluster");
        }
        other => panic!("unexpected {:?}", other),
    }
    assert_eq!(m.phase(), TurnPhase::Stopped);
    match m.upstream_failed("Network / HTTP error: refused") {
        AgentEvent::Error { message, .. } => assert_eq!(message, "Inference adapter stream error: Network / HTTP error: refused"),
        other => panic!("unexpected {:?}", other),
    }
    match m.stream_failed("eof") {
        AgentEvent::Error { message, .. } => assert_eq!(message, "Stream decode error: eof"),
        other => panic!("unexpected {:?}", other),
    }
}

#[test]
fn rejected_approval_uses_feedback() {
    let mut ep = Episode::new("m", None);
    ep.insert_pending_approval(episod::models::episode::PendingApproval {
        turn_id: "t".to_string(),
        tool_call: episod::models::message::ToolCall {
            id: "c".to_string(),
            call_type: "function".to_string(),
            function: episod::models::message::FunctionCall { name: "system_command".to_string(), arguments: "{}".to_string() },
        },
        created_at: 0,
    });
    let pending = take_approval(&mut ep, "c").unwrap();
    let req = ApprovalRequest { tool_call_id: "c".to_string(), approved: false, feedback: None };
    let r = approval_result(&req, &pending, None);
    assert_eq!(r.output, "Tool execution rejected by human operator.");
    assert!(r.is_error);
    assert_eq!(approval_status(false), "rejected");
    let req = ApprovalRequest { tool_call_id: "c".to_string(), approved: false, feedback: Some("no".to_string()) };
    assert_eq!(approval_result(&req, &pending, None).output, "no");
    let req = ApprovalRequest { tool_call_id: "c".to_string(), approved: true, feedback: None };
    assert_eq!(approval_result(&req, &pending, Some(Err("boom".to_string()))).output, "Execution error: boom");
}

#[test]
fn turn_completed_carries_telemetry() {
    let reg = ToolRegistry::new();
    let mut m = start(Episode::new("m", None), "hello");
    assert!(matches!(m.begin(), TurnAction::Infer));
    assert!(m.on_stream_item(StreamItem::Token("Hi".to_string())).is_some());
    let usage = TokenUsage { prompt_tokens: 128, completion_tokens: 64, total_tokens: 192, cached_tokens: Some(96) };
    assert!(m.on_stream_item(StreamItem::Usage(usage)).is_none());
    let (_evs, action) = m.end_stream(&reg);
    assert!(matches!(action, TurnAction::Complete));
    let timing = TurnTiming { ttft_ms: Some(142), total_ms: 684 };
    let done = m.complete_at("turn_node".to_string(), 5, timing);
    match done {
        AgentEvent::TurnCompleted { node_id, timing: t, usage: u, .. } => {
            assert_eq!(node_id, "turn_node");
            assert_eq!(t, timing);
            assert_eq!(u, Some(usage));
        }
        other => panic!("unexpected {:?}", other),
    }
    let ep = m.into_episode();
    let node = ep.nodes.iter().find(|n| n.id == "turn_node").unwrap();
    assert_eq!(node.usage, Some(usage));
    assert_eq!(node.timing, Some(timing));
}

#[test]
fn tool_call_pieces_are_relayed_with_the_call_so_far() {
    let mut m = start(Episode::new("m", None), "hello");
    assert!(matches!(m.begin(), TurnAction::Infer));
    let first = m.on_stream_item(StreamItem::ToolCallDelta {
        index: 0,
        id: Some("call_1".to_string()),
        name: Some("calculator".to_string()),
        arguments_delta: "{\"a\"".to_string(),
    });
    let second = m.on_stream_item(StreamItem::ToolCallDelta { index: 0, id: None, name: None, arguments_delta: ":1}".to_string() });
    match second {
        Some(AgentEvent::ToolCallDelta { turn_id, tool_call_id, index, name, arguments_delta }) => {
            assert_eq!(turn_id, "turn_test");
            assert_eq!(tool_call_id, "call_1");
            assert_eq!(index, 0);
            assert_eq!(name.as_deref(), Some("calculator"));
            assert_eq!(arguments_delta, ":1}");
        }
        other => panic!("unexpected {:?}", other),
    }
    assert!(matches!(first, Some(AgentEvent::ToolCallDelta { .. })));
}
