use episod::adapter::StreamItem;
use episod::guardrails::context::ContextBudgetManager;
use episod::models::episode::Episode;
use episod::models::events::TokenUsage;
use episod::models::message::Message;
use episod::router::ring::{BackendReplica, ConsistentHashRouter};
use episod::server::compat::{session_route_key, 
    find_episode_with_node, prompt_text, response_usage, resume_episode, session_episode, streamed_usage,
    ItemEffect, ResponseInput, ResponseInputItem, StreamCollector,
};

#[test]
fn prompts_join_item_contents() {
    let input = ResponseInput::Items(vec![
        ResponseInputItem { role: Some("user".to_string()), content: Some("a".to_string()) },
        ResponseInputItem { role: None, content: None },
        ResponseInputItem { role: None, content: Some("b".to_string()) },
    ]);
    assert_eq!(prompt_text(&input), "a\nb");
    assert_eq!(prompt_text(&ResponseInput::Text("hello".to_string())), "hello");
    assert_eq!(prompt_text(&ResponseInput::Items(vec![])), "");
}

#[test]
fn usage_falls_back_to_estimates() {
    let prompt = vec![Message::user("abcdefgh")];
    let u = response_usage(None, &prompt, "abcd");
    assert_eq!((u.total_tokens, u.input_tokens, u.output_tokens), (7, 0, 7));
    let reported = TokenUsage { prompt_tokens: 10, completion_tokens: 5, total_tokens: 15, cached_tokens: None };
    let u = response_usage(Some(reported), &prompt, "abcd");
    assert_eq!((u.total_tokens, u.input_tokens, u.output_tokens), (15, 10, 5));
    let s = streamed_usage(Some(reported));
    assert_eq!((s.total_tokens, s.input_tokens, s.output_tokens), (15, 10, 5));
    let s = streamed_usage(None);
    assert_eq!(s.total_tokens, 0);
}

#[test]
fn collector_gathers_text_and_usage() {
    let mut c = StreamCollector::new();
    assert!(matches!(c.absorb(StreamItem::Token("a".to_string())), ItemEffect::Delta(t) if t == "a"));
    let u = TokenUsage { prompt_tokens: 1, completion_tokens: 2, total_tokens: 3, cached_tokens: Some(1) };
    assert!(matches!(c.absorb(StreamItem::Usage(u)), ItemEffect::Nothing));
    assert!(matches!(c.absorb(StreamItem::Token("b".to_string())), ItemEffect::Delta(_)));
    assert!(matches!(c.absorb(StreamItem::Finish { reason: "stop".to_string() }), ItemEffect::Finished(r) if r == "stop"));
    assert_eq!(c.text, "ab");
    assert_eq!(c.usage, Some(u));
}

#[test]
fn previous_responses_resume_their_episode() {
    let mut ep = Episode::new("m", None);
    let t1 = ep.append_turn(Some(Message::user("q")), None, vec![], vec![]);
    let _t2 = ep.append_turn(Some(Message::user("q2")), None, vec![], vec![]);
    let other = Episode::new("m", None);
    let all = vec![other, ep];
    let k = find_episode_with_node(&all, &t1).unwrap();
    assert_eq!(k, 1);
    assert!(find_episode_with_node(&all, "turn_none").is_none());
    let mut all = all;
    let found = all.remove(k);
    let resumed = resume_episode(Some(found), &t1, "m", None);
    assert_eq!(resumed.active_leaf_id, Some(t1.clone()));
    let fresh = resume_episode(None, "resp_x", "gpt", Some("be brief".to_string()));
    assert_eq!(fresh.active_leaf_id.as_deref(), Some("resp_x"));
    assert_eq!(fresh.system_prompt.as_deref(), Some("be brief"));
    assert_eq!(fresh.model, "gpt");
    let s = session_episode(None, "gpt");
    assert!(s.id.starts_with("ep_"));
    let _ = ContextBudgetManager::default();
}

#[test]
fn session_header_pins_the_replica() {
    let mut router = ConsistentHashRouter::new(50);
    router.add_replica(BackendReplica::new("node-1", "http://10.0.0.1:8000", 1));
    router.add_replica(BackendReplica::new("node-2", "http://10.0.0.2:8000", 1));
    let header = Some("s1".to_string());
    let a = Episode::new("m", None);
    let b = Episode::new("m", None);
    let ka = session_route_key(&header, &a);
    let kb = session_route_key(&header, &b);
    assert_eq!(ka, "s1");
    assert_eq!(router.route_by_session(&ka).unwrap().id, router.route_by_session(&kb).unwrap().id);
    assert_eq!(session_route_key(&None, &a), a.id);
}

#[test]
fn second_response_continues_the_first() {
    let mut ep = Episode::new("m", None);
    let r1 = ep.append_turn(Some(Message::user("A")), Some(Message::assistant("reply A")), vec![], vec![]);
    let mut episodes = vec![Episode::new("other", None), ep];
    let k = find_episode_with_node(&episodes, &r1).unwrap();
    assert_eq!(k, 1);
    let found = episodes.remove(k);
    let resumed = resume_episode(Some(found), &r1, "m", None);
    assert_eq!(resumed.active_leaf_id.as_deref(), Some(r1.as_str()));
    let contents: Vec<Option<String>> = resumed.linearize_history(None).iter().map(|m| m.content.clone()).collect();
    assert_eq!(contents, vec![Some("A".to_string()), Some("reply A".to_string())]);
}
