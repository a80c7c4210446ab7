use episod::guardrails::context::{total_tokens_fit, ContextBudgetManager};
use episod::guardrails::input::InputGuardrail;
use episod::guardrails::tools::ToolGuardrail;
use episod::models::message::{Message, Role};

#[test]
fn test_context_budget_pruning() {
    let manager = ContextBudgetManager::new(500, 100); // 400 token budget

    let mut messages = vec![Message::system("You are a helpful assistant.")];

    // Add 10 turns of long text
    for i in 1..=10 {
        messages.push(Message::user(&format!("Turn {}: {}", i, "A".repeat(200))));
        messages.push(Message::assistant(&format!("Ans {}: {}", i, "B".repeat(200))));
    }

    let original_tokens = ContextBudgetManager::estimate_total_tokens(&messages);
    assert!(original_tokens > 500);

    let pruned = manager.prune_history(messages);
    let pruned_tokens = ContextBudgetManager::estimate_total_tokens(&pruned);

    // Must keep system prompt at index 0
    assert_eq!(pruned[0].role, Role::System);
    assert!(pruned.len() < 22);
    // Must fit within budget
    assert!(pruned_tokens <= 500);
}

#[test]
fn test_input_guardrail_validation() {
    let guard = InputGuardrail::new(100, 10);

    assert!(guard.validate_message(Some("Short message")).is_ok());
    assert!(guard.validate_message(None).is_ok());

    let giant_msg = "A".repeat(101);
    assert!(guard.validate_message(Some(&giant_msg)).is_err());

    assert!(guard.validate_episode_turn_count(9).is_ok());
    assert!(guard.validate_episode_turn_count(10).is_err());
}

#[test]
fn test_tool_output_truncation() {
    let guard = ToolGuardrail::new(5, 200);
    let giant_output = "X".repeat(500);

    let sanitized = guard.sanitize_output(giant_output);
    assert!(sanitized.len() < 300);
    assert!(sanitized.contains("output truncated by guardrail"));
}

#[test]
fn estimate_tokens_is_a_quarter_of_the_bytes() {
    assert_eq!(ContextBudgetManager::estimate_tokens(""), 0);
    assert_eq!(ContextBudgetManager::estimate_tokens("abc"), 1);
    assert_eq!(ContextBudgetManager::estimate_tokens("abcdefgh"), 2);
    let m = Message::user("abcdefgh");
    assert_eq!(ContextBudgetManager::estimate_message_tokens(&m), 6);
}

#[test]
fn short_history_is_not_pruned() {
    let manager = ContextBudgetManager::new(500, 100);
    let messages = vec![Message::system("sys"), Message::user("hello")];
    let pruned = manager.prune_history(messages);
    assert_eq!(pruned.len(), 2);
    assert_eq!(pruned[1].content.as_deref(), Some("hello"));
}

#[test]
fn pruning_keeps_newest_message_and_adds_notice() {
    let manager = ContextBudgetManager::new(500, 100);
    let mut messages = vec![Message::system("sys")];
    for i in 0..20 {
        messages.push(Message::user(&format!("{} {}", i, "C".repeat(300))));
    }
    messages.push(Message::user("newest"));
    let pruned = manager.prune_history(messages);
    assert_eq!(pruned[0].content.as_deref(), Some("sys"));
    assert_eq!(pruned[1].role, Role::System);
    assert_eq!(pruned.last().unwrap().content.as_deref(), Some("newest"));
    assert!(total_tokens_fit(&pruned));
}

#[test]
fn input_guardrail_error_texts() {
    let guard = InputGuardrail::new(3, 2);
    assert_eq!(
        guard.validate_message(Some("abcd")),
        Err("Message length (4 chars) exceeds maximum allowed limit of 3 chars".to_string())
    );
    assert_eq!(
        guard.validate_episode_turn_count(2),
        Err("Episode has reached the maximum allowed limit of 2 turns".to_string())
    );
}

#[test]
fn tool_guardrail_settles_outcomes() {
    let guard = ToolGuardrail::new(15, 8000);
    assert_eq!(guard.settle_execution(Some(Ok("out".to_string()))), Ok("out".to_string()));
    assert_eq!(guard.settle_execution(Some(Err("bad".to_string()))), Err("bad".to_string()));
    assert_eq!(
        guard.settle_execution(None),
        Err("Tool execution timed out after 15 seconds".to_string())
    );
}

#[test]
fn tool_guardrail_truncation_text() {
    let guard = ToolGuardrail::new(5, 110);
    let out = guard.sanitize_output("Y".repeat(200));
    assert_eq!(
        out,
        format!(
            "{}\n\n[...output truncated by guardrail: exceeded 110 characters limit...]",
            "Y".repeat(10)
        )
    );
}

#[test]
fn test_input_guardrail_rejects_oversized_payload() {
    let g = InputGuardrail::default();
    let huge_text = "A".repeat(40_000);
    assert!(g.validate_message(Some(&huge_text)).is_err());
    assert!(g.validate_message(Some("fine")).is_ok());
}

#[test]
fn truncation_cuts_at_a_character_boundary() {
    let g = ToolGuardrail::new(15, 104);
    let out = format!("abc\u{e9}{}", "x".repeat(200));
    let r = g.sanitize_output(out);
    assert!(r.starts_with("abc\n\n[...output truncated by guardrail: exceeded 104 characters limit...]"));
    assert_eq!(r, "abc\n\n[...output truncated by guardrail: exceeded 104 characters limit...]");
}

#[test]
fn pruning_keeps_the_last_user_prompt() {
    let manager = ContextBudgetManager::new(600, 100);
    let messages = vec![
        Message::system("sys"),
        Message::user("old question"),
        Message::assistant("old answer"),
        Message::user("hi"),
        Message::assistant(&"B".repeat(5000)),
    ];
    let pruned = manager.prune_history(messages);
    assert_eq!(pruned.len(), 4);
    assert_eq!(pruned[0].content.as_deref(), Some("sys"));
    assert_eq!(pruned[1].role, Role::System);
    assert_eq!(pruned[2].role, Role::User);
    assert_eq!(pruned[2].content.as_deref(), Some("hi"));
    assert_eq!(pruned[3].role, Role::Assistant);
}

#[test]
fn sanitizing_twice_changes_nothing() {
    let g = ToolGuardrail::new(15, 150);
    let once = g.sanitize_output("DATA_".repeat(100));
    assert!(once.len() <= 150);
    let twice = g.sanitize_output(once.clone());
    assert_eq!(once, twice);
}
