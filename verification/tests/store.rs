use episod::models::message::Message;
use episod::models::episode::Episode;
use episod::store::error::StoreError;
use episod::store::http::{http_status_error, HttpEndpoint};
use episod::store::memory::InMemoryStore;
use episod::store::redis::RedisStore;
use episod::store::state::StateStore;

#[test]
fn test_in_memory_store_crud() {
    let mut store = InMemoryStore::new();
    let ep = Episode::new("gpt-4o", Some("You are helpful.".to_string()));
    let ep_id = ep.id.clone();

    let created = store.create_episode(ep).unwrap();
    assert_eq!(created.id, ep_id);

    let retrieved = store.get_episode(&ep_id).unwrap().unwrap();
    assert_eq!(retrieved.model, "gpt-4o");

    let list = store.list_episodes(10, 0).unwrap();
    assert_eq!(list.len(), 1);

    let deleted = store.delete_episode(&ep_id).unwrap();
    assert!(deleted);

    let missing = store.get_episode(&ep_id).unwrap();
    assert!(missing.is_none());
}

#[test]
fn test_in_memory_store_capacity_eviction() {
    let mut store = InMemoryStore::with_options(10, None);

    // Fill 10 items
    for i in 0..10 {
        let mut ep = Episode::new(&format!("model-{}", i), None);
        ep.updated_at = 1000 + i;
        store.create_episode(ep).unwrap();
    }

    assert_eq!(store.list_episodes(50, 0).unwrap().len(), 10);

    // Add 11th item
    let mut ep_new = Episode::new("model-new", None);
    ep_new.updated_at = 2000;
    store.create_episode(ep_new).unwrap();

    // Oldest item should be evicted so length stays 10
    let list = store.list_episodes(50, 0).unwrap();
    assert_eq!(list.len(), 10);
    assert!(list.iter().any(|e| e.model == "model-new"));
    assert!(!list.iter().any(|e| e.model == "model-0"));
}

#[test]
fn update_of_unknown_episode_is_not_found() {
    let mut store = InMemoryStore::new();
    let ep = Episode::new("m", None);
    let id = ep.id.clone();
    match store.update_episode(ep) {
        Err(StoreError::NotFound(x)) => assert_eq!(x, id),
        other => panic!("unexpected {:?}", other),
    }
    assert_eq!(store.len(), 0);
    assert_eq!(StoreError::NotFound("x".to_string()).message(), "Episode not found: x");
    assert_eq!(StoreError::Internal("boom".to_string()).message(), "Storage error: boom");
}

#[test]
fn update_stamps_the_time() {
    let mut store = InMemoryStore::with_options(10, None);
    let mut ep = Episode::new("m", None);
    ep.updated_at = 5;
    let id = ep.id.clone();
    store.create_episode(ep).unwrap();
    let mut again = store.get_episode(&id).unwrap().unwrap();
    again.model = "changed".to_string();
    let updated = store.replace_episode_at(again, 77).unwrap();
    assert_eq!(updated.updated_at, 77);
    assert_eq!(store.get_episode(&id).unwrap().unwrap().model, "changed");
}

#[test]
fn expired_episodes_are_dropped() {
    let mut store = InMemoryStore::with_options(10, Some(10));
    let mut old_ep = Episode::new("old", None);
    old_ep.updated_at = 1_000;
    let mut fresh_ep = Episode::new("fresh", None);
    fresh_ep.updated_at = 15_000;
    store.create_episode(old_ep).unwrap();
    store.create_episode(fresh_ep).unwrap();
    store.cleanup_expired_at(20_000);
    let left = store.recent_episodes_at(10, 0, 20_000);
    assert_eq!(left.len(), 1);
    assert_eq!(left[0].model, "fresh");
}

#[test]
fn listing_is_newest_first_and_paged() {
    let mut store = InMemoryStore::with_options(10, None);
    for (i, t) in [30i64, 10, 20].iter().enumerate() {
        let mut ep = Episode::new(&format!("m{}", i), None);
        ep.updated_at = *t;
        store.create_episode(ep).unwrap();
    }
    let all = store.recent_episodes_at(10, 0, 0);
    let times: Vec<i64> = all.iter().map(|e| e.updated_at).collect();
    assert_eq!(times, vec![30, 20, 10]);
    let page = store.recent_episodes_at(1, 1, 0);
    assert_eq!(page.len(), 1);
    assert_eq!(page[0].updated_at, 20);
    assert!(store.recent_episodes_at(5, 9, 0).is_empty());
}

#[test]
fn capacity_is_at_least_ten() {
    let mut store = InMemoryStore::with_options(2, None);
    for i in 0..10 {
        let mut ep = Episode::new("m", None);
        ep.updated_at = i;
        store.create_episode(ep).unwrap();
    }
    assert_eq!(store.len(), 10);
}

#[test]
fn test_redis_key_layout() {
    let store = RedisStore::new();
    assert_eq!(store.episode_key("ep_1"), "episod:episodes:ep_1");
    assert_eq!(store.index_key(), "episod:episodes:index");
    assert!(store.expires());
    let store = store.with_ttl(0);
    assert!(!store.expires());
    assert_eq!(RedisStore::list_range(10, 5), (5, 14));
    assert_eq!(RedisStore::list_range(0, 0), (0, 0));
}

#[test]
fn http_endpoint_urls() {
    let ep = HttpEndpoint::new("http://store/api/episodes//");
    assert_eq!(ep.collection_url(), "http://store/api/episodes");
    assert_eq!(ep.episode_url("ep_9"), "http://store/api/episodes/ep_9");
    assert_eq!(http_status_error("404 Not Found", "nope"), "HTTP error 404 Not Found: nope");
}

#[test]
fn default_store_is_empty() {
    let mut store = InMemoryStore::default();
    assert_eq!(store.len(), 0);
    assert!(store.list_episodes(10, 0).unwrap().is_empty());
    assert!(!store.delete_episode("nothing").unwrap());
}

#[test]
fn delete_then_recreate_episode() {
    let mut store = InMemoryStore::with_options(10, None);
    let ep = Episode::new("m", None);
    let id = ep.id.clone();
    store.create_episode(ep).unwrap();
    assert_eq!(store.len(), 1);
    assert!(store.remove_episode(&id));
    assert!(!store.remove_episode(&id));
    assert_eq!(store.len(), 0);
}

#[test]
fn test_fork_via_api() {
    let mut store = InMemoryStore::new();
    let mut ep = Episode::new("test-model", None);
    let n1 = ep.append_turn(Some(Message::user("Turn 1")), Some(Message::assistant("Ans 1")), vec![], vec![]);
    let _n2 = ep.append_turn(Some(Message::user("Turn 2")), Some(Message::assistant("Ans 2")), vec![], vec![]);
    let ep_id = ep.id.clone();
    store.create_episode(ep).unwrap();

    let mut stored = store.get_episode(&ep_id).unwrap().unwrap();
    stored.fork(&n1).unwrap();
    let updated = store.update_episode(stored).unwrap();
    assert_eq!(updated.active_leaf_id.as_deref(), Some(n1.as_str()));
    let again = store.get_episode(&ep_id).unwrap().unwrap();
    assert_eq!(again.active_leaf_id.as_deref(), Some(n1.as_str()));
}
