use episod::bench::{
    benchmark_target, cold_ttft, contains_str, fallback_model, mean_ms, pinned_ttft, preferred_model, summarize_turn,
    BenchmarkConfig, CompletedTelemetry, TurnObservation, TurnResult, TurnStatus,
};
use episod::config::{
    default_database_path, default_host, default_port, default_storage_type, default_weight, EpisodConfig,
    StorageConfig,
};
use episod::models::episode::Episode;
use episod::models::events::{TokenUsage, TurnTiming};
use episod::models::message::Message;
use episod::server::requests::{default_max_iterations, default_true, episode_for_request, CreateEpisodeRequest};
use episod::models::episode::MetadataEntry;
use episod::tree::dag_tree_lines;

#[test]
fn config_defaults() {
    assert_eq!(default_host(), "0.0.0.0");
    assert_eq!(default_port(), 8080);
    assert_eq!(default_weight(), 1);
    assert_eq!(default_storage_type(), "sqlite");
    assert_eq!(default_database_path(), "episod.db");
    let c = EpisodConfig::default();
    assert_eq!(c.upstreams.len(), 1);
    assert_eq!(c.upstreams[0].id, "default-openai");
    assert_eq!(c.upstreams[0].url, "http://127.0.0.1:8000/v1");
    assert_eq!(c.storage.storage_type, StorageConfig::default().storage_type);
}

#[test]
fn request_defaults() {
    assert!(default_true());
    assert_eq!(default_max_iterations(), 5);
    let e = episode_for_request(CreateEpisodeRequest {
        model: "gpt-4o".to_string(),
        system_prompt: Some("Always be polite.".to_string()),
        metadata: Some(vec![MetadataEntry { key: "k".to_string(), value: "v".to_string() }]),
    });
    assert_eq!(e.model, "gpt-4o");
    assert_eq!(e.system_prompt.as_deref(), Some("Always be polite."));
    assert_eq!(e.metadata.len(), 1);
    assert!(e.id.starts_with("ep_"));
}

#[test]
fn benchmark_helpers() {
    assert_eq!(benchmark_target(&None), "http://localhost:8080");
    assert_eq!(benchmark_target(&Some("http://x".to_string())), "http://x");
    let d = BenchmarkConfig::default();
    assert_eq!((d.turns, d.sessions, d.simulated), (5, 4, false));
    assert!(contains_str("meta-llama-3", "llama"));
    assert!(!contains_str("mistral", "llama"));
    assert!(contains_str("abc", ""));
    let ids = vec![Some("gpt-4".to_string()), None, Some("qwen2:1b".to_string()), Some("llama3".to_string())];
    assert_eq!(preferred_model(&ids), Some("qwen2:1b".to_string()));
    assert_eq!(preferred_model(&vec![Some("gpt-4".to_string())]), Some("gpt-4".to_string()));
    assert_eq!(preferred_model(&vec![None, Some("gpt-4".to_string())]), None);
    assert_eq!(preferred_model(&vec![]), None);
    assert_eq!(fallback_model(), "smollm2:135m");
    assert_eq!(cold_ttft(1), 820);
    assert_eq!(cold_ttft(3), 900);
    assert_eq!(pinned_ttft(1), 820);
    assert_eq!(pinned_ttft(2), 108);
    assert_eq!(pinned_ttft(3), 104);
    assert_eq!(mean_ms(&vec![10, 20, 31]), 20);
    assert_eq!(mean_ms(&vec![]), 0);
}

#[test]
fn observations_fold_events() {
    let mut o = TurnObservation::new();
    o.observe("turn_started", 1, None);
    o.observe("token_delta", 12, None);
    o.observe("token_delta", 20, None);
    o.observe(
        "turn_completed",
        40,
        Some(CompletedTelemetry { ttft_ms: Some(9), cached_tokens: Some(128), positive_hit_rate: false }),
    );
    let r = o.finish(1, 55);
    assert_eq!(r.client_ttft_ms, 12);
    assert_eq!(r.server_ttft_ms, Some(9));
    assert_eq!(r.cached_tokens, Some(128));
    assert!(r.cache_hit);
    let r = TurnObservation::new().finish(2, 70);
    assert_eq!(r.client_ttft_ms, 70);
    assert!(!r.cache_hit);
}

fn result(idx: usize, ttft: u64, total: u64, cached: Option<usize>) -> TurnResult {
    TurnResult {
        turn_idx: idx,
        client_ttft_ms: ttft,
        server_ttft_ms: None,
        total_ms: total,
        cache_hit: cached.map(|c| c > 0).unwrap_or(false),
        cached_tokens: cached,
    }
}

#[test]
fn turn_summaries() {
    let all = vec![
        vec![result(1, 100, 200, None), result(2, 50, 90, Some(64))],
        vec![result(1, 300, 400, None)],
    ];
    let first = summarize_turn(&all, 0, 0);
    assert_eq!(first.avg_client_ttft, 200);
    assert_eq!(first.avg_total, 300);
    assert_eq!(first.avg_server_ttft, None);
    assert_eq!(first.status, TurnStatus::ColdPrefill);
    let second = summarize_turn(&all, 1, first.avg_client_ttft);
    // averaged over all sessions, also those that did not reach the turn
    assert_eq!(second.avg_client_ttft, 25);
    assert_eq!(second.status, TurnStatus::WarmHit { avg_cached: 64 });
    let all = vec![vec![result(1, 100, 200, None), result(2, 50, 90, None)]];
    assert_eq!(summarize_turn(&all, 1, 100).status, TurnStatus::WarmFaster { first_ttft: 100, ttft: 50 });
    assert_eq!(summarize_turn(&all, 1, 40).status, TurnStatus::Warm);
}

#[test]
fn tree_of_an_empty_episode() {
    let ep = Episode::create("ep_1".to_string(), "m", Some("line1\nline2".to_string()), 0);
    let lines = dag_tree_lines(&ep);
    assert_eq!(
        lines,
        vec![
            "".to_string(),
            "🌿 Episode: ep_1 (Model: m)".to_string(),
            "│  ⚙️ System Prompt: \"line1 line2\"".to_string(),
            "│".to_string(),
            "└── (No turns recorded yet)".to_string(),
            "".to_string(),
        ]
    );
}

#[test]
fn tree_of_two_turns() {
    let mut ep = Episode::create("ep_1".to_string(), "m", None, 0);
    ep.append_turn_at("turn_b".to_string(), 20, Some(Message::user("hi")), None, vec![], vec![], None, None);
    ep.append_turn_at(
        "turn_c".to_string(),
        30,
        None,
        Some(Message::assistant(&"z".repeat(100))),
        vec![],
        vec![],
        Some(TokenUsage { prompt_tokens: 3, completion_tokens: 1, total_tokens: 4, cached_tokens: Some(1) }),
        Some(TurnTiming { ttft_ms: Some(12), total_ms: 40 }),
    );
    let lines = dag_tree_lines(&ep);
    assert_eq!(lines[3], "├── [1] Node ID: turn_b");
    assert_eq!(lines[4], "│   👤 User: \"hi\"");
    assert_eq!(lines[5], "│   📊 Metrics: TTFT: n/a | Total: n/a | Tokens: n/a | Cache: n/a");
    assert_eq!(lines[6], "│");
    assert_eq!(lines[7], "└── [2] Node ID: turn_c 🌿 [Active Leaf]");
    assert_eq!(lines[8], "    ↳ Parent: turn_b");
    assert_eq!(lines[9], format!("    🤖 Assistant: \"{}\"", "z".repeat(80)));
    assert_eq!(lines[10], "    📊 Metrics: TTFT: 12ms | Total: 40ms | Tokens: 4 tok | Cache: 33%");
    assert_eq!(lines[11], "");
    assert_eq!(lines.len(), 12);
}

#[test]
fn tree_matches_the_documented_layout() {
    let mut ep = Episode::create(
        "ep_b7e914df088741348123abc456".to_string(),
        "llama3.1:8b",
        Some("You are an autonomous research assistant.".to_string()),
        0,
    );
    ep.append_turn_at(
        "turn_aeec8e85a3b44e3e9c67b7ed79c17693".to_string(),
        1,
        Some(Message::user("What is 7 * 8?")),
        Some(Message::assistant("7 multiplied by 8 is 56.")),
        vec![],
        vec![],
        Some(TokenUsage { prompt_tokens: 40, completion_tokens: 24, total_tokens: 64, cached_tokens: Some(40) }),
        Some(TurnTiming { ttft_ms: Some(142), total_ms: 412 }),
    );
    ep.append_turn_at(
        "turn_4f04ea90d5824572a6c60192a2476be9".to_string(),
        2,
        Some(Message::user("And add 4 to that.")),
        Some(Message::assistant("56 + 4 equals 60.")),
        vec![],
        vec![],
        Some(TokenUsage { prompt_tokens: 70, completion_tokens: 18, total_tokens: 88, cached_tokens: Some(70) }),
        Some(TurnTiming { ttft_ms: Some(108), total_ms: 280 }),
    );
    let lines = dag_tree_lines(&ep);
    let expected = vec![
        "",
        "🌿 Episode: ep_b7e914df088741348123abc456 (Model: llama3.1:8b)",
        "│  ⚙️ System Prompt: \"You are an autonomous research assistant.\"",
        "│",
        "├── [1] Node ID: turn_aeec8e85a3b44e3e9c67b7ed79c17693",
        "│   👤 User: \"What is 7 * 8?\"",
        "│   🤖 Assistant: \"7 multiplied by 8 is 56.\"",
        "│   📊 Metrics: TTFT: 142ms | Total: 412ms | Tokens: 64 tok | Cache: 100%",
        "│",
        "└── [2] Node ID: turn_4f04ea90d5824572a6c60192a2476be9 🌿 [Active Leaf]",
        "    ↳ Parent: turn_aeec8e85a3b44e3e9c67b7ed79c17693",
        "    👤 User: \"And add 4 to that.\"",
        "    🤖 Assistant: \"56 + 4 equals 60.\"",
        "    📊 Metrics: TTFT: 108ms | Total: 280ms | Tokens: 88 tok | Cache: 100%",
        "",
    ];
    assert_eq!(lines, expected);
}
