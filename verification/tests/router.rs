use episod::router::health::{health_url, ProbeOutcome};
use episod::router::ring::{BackendReplica, ConsistentHashRouter};

#[test]
fn test_consistent_hash_routing_affinity() {
    let mut router = ConsistentHashRouter::new(50);
    let node1 = BackendReplica::new("node-1", "http://10.0.0.1:8000", 1);
    let node2 = BackendReplica::new("node-2", "http://10.0.0.2:8000", 1);

    router.add_replica(node1.clone());
    router.add_replica(node2.clone());

    // Same session key must always resolve to the exact same node
    let session = "ep_12345_session_abc";
    let target1 = router.route_by_session(session).unwrap();
    let target2 = router.route_by_session(session).unwrap();
    assert_eq!(target1.id, target2.id);

    // Unhealthy node should automatically fall back
    let chosen_id = target1.id.clone();
    router.set_health(&chosen_id, false);

    let fallback = router.route_by_session(session).unwrap();
    assert_ne!(fallback.id, chosen_id);
    assert!(fallback.healthy);
}

#[test]
fn test_circuit_breaker_trip_and_recovery() {
    let mut router = ConsistentHashRouter::new(50);
    let node1 = BackendReplica::new("node-1", "http://10.0.0.1:8000", 1);
    let node2 = BackendReplica::new("node-2", "http://10.0.0.2:8000", 1);

    router.add_replica(node1.clone());
    router.add_replica(node2.clone());

    let session = "session-cb-test";
    let initial = router.route_by_session(session).unwrap();

    // 1st failure: not tripped yet
    assert!(!router.record_failure(&initial.id));
    assert!(router.route_by_session(session).unwrap().id == initial.id);

    // 2nd failure: not tripped yet
    assert!(!router.record_failure(&initial.id));

    // 3rd failure: trips!
    assert!(router.record_failure(&initial.id));

    // Now routes to fallback node
    let fallback = router.route_by_session(session).unwrap();
    assert_ne!(fallback.id, initial.id);

    // Recovery
    router.record_success(&initial.id);
    let recovered = router.route_by_session(session).unwrap();
    assert_eq!(recovered.id, initial.id);
}

#[test]
fn empty_router_routes_nowhere() {
    let router = ConsistentHashRouter::new(50);
    assert!(router.route_by_session("anything").is_none());
    assert!(router.route_by_prefix("anything").is_none());
}

#[test]
fn all_unhealthy_routes_nowhere() {
    let mut router = ConsistentHashRouter::new(10);
    router.add_replica(BackendReplica::new("a", "http://a", 1));
    router.add_replica(BackendReplica::new("b", "http://b", 1));
    router.set_health("a", false);
    router.set_health("b", false);
    assert!(router.route_by_session("s").is_none());
    router.set_health("b", true);
    assert_eq!(router.route_by_session("s").unwrap().id, "b");
}

#[test]
fn removed_replica_gets_no_traffic() {
    let mut router = ConsistentHashRouter::new(10);
    router.add_replica(BackendReplica::new("a", "http://a", 1));
    router.add_replica(BackendReplica::new("b", "http://b", 2));
    router.remove_replica("a");
    for i in 0..20 {
        let key = format!("session-{}", i);
        assert_eq!(router.route_by_session(&key).unwrap().id, "b");
    }
    assert_eq!(router.list_replicas().len(), 1);
    assert_eq!(router.ring_positions().len(), 20);
}

#[test]
fn replica_weight_zero_counts_as_one() {
    let r = BackendReplica::new("x", "http://x", 0);
    assert_eq!(r.weight, 1);
    assert!(r.healthy);
    assert_eq!(r.failure_count, 0);
}

#[test]
fn ring_has_weight_times_vnodes_positions() {
    let mut router = ConsistentHashRouter::new(5);
    router.add_replica(BackendReplica::new("a", "http://a", 3));
    // fewer than 10 virtual nodes per weight count as 10
    assert_eq!(router.ring_positions().len(), 30);
    let positions = router.ring_positions();
    for w in positions.windows(2) {
        assert!(w[0].0 < w[1].0);
    }
}

#[test]
fn health_urls() {
    assert_eq!(health_url("http://h:1/v1"), "http://h:1/v1/models");
    assert_eq!(health_url("http://h:1/"), "http://h:1/models");
    assert_eq!(health_url("http://h:1"), "http://h:1/v1/models");
}

#[test]
fn health_probes_drive_the_breaker() {
    let mut router = ConsistentHashRouter::new(10);
    router.add_replica(BackendReplica::new("a", "http://a", 1));
    assert!(!router.apply_health_probe("a", ProbeOutcome::Status(503)));
    assert!(!router.apply_health_probe("a", ProbeOutcome::NetworkError));
    // a 4xx answer is neither success nor server error: nothing changes
    assert!(!router.apply_health_probe("a", ProbeOutcome::Status(404)));
    assert!(router.apply_health_probe("a", ProbeOutcome::Status(500)));
    assert!(router.route_by_session("s").is_none());
    assert!(!router.apply_health_probe("a", ProbeOutcome::Status(200)));
    assert_eq!(router.route_by_session("s").unwrap().id, "a");
}
