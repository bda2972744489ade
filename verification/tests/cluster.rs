use bytes::{BufMut, BytesMut};
use rexmq::cluster::failover::{FailoverConfig, FailoverEvent, FailoverManager, NodeStatus};
use rexmq::cluster::forward::{ForwardPlan, MessageForwarder};
use rexmq::cluster::gossip::{gossip_targets, silent_too_long, GossipConfig};
use rexmq::cluster::hash_ring::HashRing;
use rexmq::cluster::route_table::GlobalRouteTable;
use rexmq::cluster::sync::{apply_client_delete, apply_client_register, client_key, parse_client_key};
use rexmq::cluster::transport::{drain_cluster_frames, encode_cluster_frame, incoming_source};
use rexmq::cluster::types::{ClusterConfig, ClusterMessage, HeartbeatMessage, NodeId, NodeInfo};
use rexmq::net::SocketAddress;

// ---- hash ring ----

#[test]
fn test_hash_ring_empty() {
    let ring = HashRing::new();
    assert!(ring.is_empty());
    assert!(ring.get("key").is_none());
}

#[test]
fn test_hash_ring_single_node() {
    let mut ring = HashRing::new();
    ring.add_node("node1".to_string());

    assert_eq!(ring.len(), 1);
    assert_eq!(ring.get("key"), Some("node1"));
}

#[test]
fn test_hash_ring_multiple_nodes() {
    let mut ring = HashRing::new();
    ring.add_node("node1".to_string());
    ring.add_node("node2".to_string());
    ring.add_node("node3".to_string());

    assert_eq!(ring.len(), 3);

    for i in 0..100 {
        let key = format!("key{}", i);
        let node = ring.get(&key);
        assert!(node.is_some());
    }
}

#[test]
fn test_hash_ring_get_n() {
    let mut ring = HashRing::new();
    ring.add_node("node1".to_string());
    ring.add_node("node2".to_string());
    ring.add_node("node3".to_string());

    let nodes = ring.get_n("key", 2);
    assert_eq!(nodes.len(), 2);
}

#[test]
fn test_hash_ring_remove_node() {
    let mut ring = HashRing::new();
    ring.add_node("node1".to_string());
    ring.add_node("node2".to_string());

    ring.remove_node("node1");
    assert_eq!(ring.len(), 1);
}

#[test]
fn test_hash_stability() {
    let mut ring = HashRing::new();
    ring.add_node("node1".to_string());

    for _ in 0..10 {
        assert_eq!(ring.get("test-key"), Some("node1"));
    }
}

#[test]
fn ring_adding_a_node_twice_keeps_one() {
    let mut ring = HashRing::with_virtual_nodes(4);
    ring.add_node("a".to_string());
    ring.add_node("a".to_string());
    assert_eq!(ring.len(), 1);
    assert_eq!(ring.nodes(), vec!["a"]);
}

#[test]
fn ring_get_n_returns_every_node_when_asked_for_more() {
    let mut ring = HashRing::new();
    for n in ["a", "b", "c", "d"] {
        ring.add_node(n.to_string());
    }
    let mut got = ring.get_n("some-title", 10);
    got.sort();
    assert_eq!(got, vec!["a", "b", "c", "d"]);
}

#[test]
fn ring_removed_node_gets_no_keys() {
    let mut ring = HashRing::new();
    ring.add_node("a".to_string());
    ring.add_node("b".to_string());
    ring.remove_node("a");
    for i in 0..50 {
        assert_eq!(ring.get(&format!("k{}", i)), Some("b"));
    }
}

#[test]
fn ring_removing_a_node_just_added_restores_every_lookup() {
    let mut ring = HashRing::with_virtual_nodes(20);
    ring.add_node("a".to_string());
    ring.add_node("b".to_string());
    let keys: Vec<String> = (0..100).map(|i| format!("key{}", i)).collect();
    let before: Vec<Option<String>> = keys.iter().map(|k| ring.get(k).map(|s| s.to_string())).collect();
    let before_n: Vec<Vec<String>> =
        keys.iter().map(|k| ring.get_n(k, 2).iter().map(|s| s.to_string()).collect()).collect();
    ring.add_node("c".to_string());
    ring.remove_node("c");
    assert_eq!(ring.nodes(), vec!["a", "b"]);
    assert_eq!(ring.len(), 2);
    for (i, k) in keys.iter().enumerate() {
        assert_eq!(ring.get(k).map(|s| s.to_string()), before[i]);
        let n: Vec<String> = ring.get_n(k, 2).iter().map(|s| s.to_string()).collect();
        assert_eq!(n, before_n[i]);
    }
}

#[test]
fn ring_nodes_are_those_added_and_not_removed() {
    let mut ring = HashRing::with_virtual_nodes(3);
    ring.add_node("a".to_string());
    ring.add_node("b".to_string());
    ring.add_node("c".to_string());
    ring.remove_node("b");
    ring.add_node("a".to_string());
    ring.remove_node("zzz");
    ring.add_node("d".to_string());
    let mut nodes = ring.nodes();
    nodes.sort();
    assert_eq!(nodes, vec!["a", "c", "d"]);
    assert_eq!(ring.len(), 3);
}

#[test]
fn ring_without_points_per_node_stays_empty() {
    let mut ring = HashRing::with_virtual_nodes(0);
    ring.add_node("a".to_string());
    ring.add_node("b".to_string());
    assert!(ring.is_empty());
    assert_eq!(ring.len(), 2);
    assert_eq!(ring.get("title"), None);
    assert!(ring.get_n("title", 3).is_empty());
    ring.remove_node("a");
    assert!(ring.is_empty());
    assert_eq!(ring.len(), 1);
}

#[test]
fn ring_first_replica_is_the_primary_node() {
    let mut ring = HashRing::with_virtual_nodes(10);
    for n in ["a", "b", "c", "d"] {
        ring.add_node(n.to_string());
    }
    for h in [0u64, 1, 77, u64::MAX / 3, u64::MAX / 2, u64::MAX - 5, u64::MAX] {
        let first = ring.get_n_by_hash(h, 3);
        assert_eq!(first.len(), 3);
        assert_eq!(Some(first[0]), ring.get_by_hash(h));
    }
    for i in 0..30 {
        let k = format!("title{}", i);
        assert_eq!(ring.get_n(&k, 2).first().copied(), ring.get(&k));
    }
}

#[test]
fn ring_walk_by_hash_is_empty_on_an_empty_ring() {
    let ring = HashRing::new();
    assert!(ring.get_n_by_hash(42, 3).is_empty());
}

// ---- route table ----

#[test]
fn test_route_table_empty() {
    let table = GlobalRouteTable::new();
    assert!(table.get_node_by_title("test").is_none());
}

#[test]
fn test_route_table_add_node() {
    let mut table = GlobalRouteTable::new();
    table.add_node("node1".to_string(), "127.0.0.1:9001".to_string());

    assert_eq!(table.get_all_nodes(), vec!["node1"]);
}

#[test]
fn test_route_table_client_registration() {
    let mut table = GlobalRouteTable::new();
    table.add_node("node1".to_string(), "127.0.0.1:9001".to_string());
    table.register_client(12345, "node1");

    assert_eq!(table.get_node_by_client(&12345), Some("node1".to_string()));
}

#[test]
fn test_route_table_title_routing() {
    let mut table = GlobalRouteTable::new();
    table.add_node("node1".to_string(), "127.0.0.1:9001".to_string());
    table.add_node("node2".to_string(), "127.0.0.1:9002".to_string());

    let node = table.get_node_by_title("test-title");
    assert!(node.is_some());
}

#[test]
fn test_route_table_export_import() {
    let mut table = GlobalRouteTable::new();
    table.add_node("node1".to_string(), "127.0.0.1:9001".to_string());
    table.register_client(12345, "node1");

    let state = table.export_state();
    assert_eq!(state.version, 2);
    assert_eq!(state.client_id_to_node.len(), 1);

    let mut table2 = GlobalRouteTable::new();
    table2.import_state(state);

    assert_eq!(table2.get_all_nodes(), vec!["node1"]);
    assert_eq!(table2.get_node_by_client(&12345), Some("node1".to_string()));
}

#[test]
fn register_client_then_get_node_by_client_returns_node() {
    let mut table = GlobalRouteTable::new();
    table.add_node("node-1".to_string(), "127.0.0.1:9001".to_string());
    table.register_client(0xCAFEu128, "node-1");

    assert_eq!(table.get_node_by_client(&0xCAFEu128), Some("node-1".to_string()));
}

#[test]
fn register_client_then_unregister_client_returns_none() {
    let mut table = GlobalRouteTable::new();
    table.add_node("node-1".to_string(), "127.0.0.1:9001".to_string());
    table.register_client(0xCAFEu128, "node-1");
    table.unregister_client(&0xCAFEu128);

    assert!(table.get_node_by_client(&0xCAFEu128).is_none());
}

#[test]
fn is_client_local_for_unknown_client_returns_false() {
    let table = GlobalRouteTable::with_local_node(NodeId::new("local-node"));
    assert!(!table.is_client_local(&0xCAFEu128));
}

#[test]
fn is_client_local_returns_true_only_for_local_node_mapping() {
    let mut table = GlobalRouteTable::with_local_node(NodeId::new("local-node"));
    table.add_node("local-node".to_string(), "127.0.0.1:9001".to_string());
    table.add_node("remote-node".to_string(), "127.0.0.1:9002".to_string());

    table.register_client(0xCAFEu128, "local-node");
    table.register_client(0xBABEu128, "remote-node");

    assert!(table.is_client_local(&0xCAFEu128));
    assert!(!table.is_client_local(&0xBABEu128));
}

#[test]
fn add_node_then_remove_node_clears_addr_and_ring_entry() {
    let mut table = GlobalRouteTable::new();
    table.add_node("node-1".to_string(), "127.0.0.1:9001".to_string());
    assert_eq!(table.get_node_addr("node-1"), Some("127.0.0.1:9001".into()));

    table.remove_node("node-1");
    assert!(table.get_node_addr("node-1").is_none());
    assert!(!table.get_all_nodes().contains(&"node-1".to_string()));
}

#[test]
fn get_node_addr_for_unknown_node_returns_none() {
    let table = GlobalRouteTable::new();
    assert!(table.get_node_addr("never-added").is_none());
}

#[test]
fn get_nodes_by_title_returns_at_most_n_distinct_nodes() {
    let mut table = GlobalRouteTable::new();
    table.add_node("node-1".to_string(), "127.0.0.1:9001".to_string());
    table.add_node("node-2".to_string(), "127.0.0.1:9002".to_string());
    table.add_node("node-3".to_string(), "127.0.0.1:9003".to_string());

    let nodes = table.get_nodes_by_title("any-title", 5);
    assert_eq!(nodes.len(), 3);
    let unique: std::collections::HashSet<_> = nodes.iter().collect();
    assert_eq!(unique.len(), 3);
}

#[test]
fn set_local_node_replaces_previous_local() {
    let mut table = GlobalRouteTable::with_local_node(NodeId::new("first"));
    assert_eq!(table.local_node().unwrap().as_str(), "first");

    table.set_local_node(NodeId::new("second"));
    assert_eq!(table.local_node().unwrap().as_str(), "second");
}

#[test]
fn version_increments_on_each_modification() {
    let mut table = GlobalRouteTable::new();
    let v0 = table.version();

    table.add_node("node-1".to_string(), "127.0.0.1:9001".to_string());
    let v1 = table.version();
    assert_eq!(v1, v0 + 1);

    table.add_node("node-2".to_string(), "127.0.0.1:9002".to_string());
    let v2 = table.version();
    assert_eq!(v2, v1 + 1);

    table.register_client(0xCAFEu128, "node-1");
    assert_eq!(table.version(), v2 + 1);

    table.unregister_client(&0xCAFEu128);
    assert_eq!(table.version(), v2 + 2);

    table.remove_node("node-1");
    assert_eq!(table.version(), v2 + 3);
}

#[test]
fn import_keeps_the_local_node_and_replaces_the_rest() {
    let mut a = GlobalRouteTable::new();
    a.add_node("n1".to_string(), "10.0.0.1:1".to_string());
    a.add_node("n2".to_string(), "10.0.0.2:2".to_string());
    a.register_client(7, "n2");
    let state = a.export_state();

    let mut b = GlobalRouteTable::with_local_node(NodeId::new("me"));
    b.add_node("old".to_string(), "1.1.1.1:1".to_string());
    b.register_client(9, "old");
    b.import_state(state);
    let mut nodes = b.get_all_nodes();
    nodes.sort();
    assert_eq!(nodes, vec!["n1", "n2"]);
    assert_eq!(b.get_node_by_client(&7), Some("n2".to_string()));
    assert!(b.get_node_by_client(&9).is_none());
    assert_eq!(b.version(), 3);
    assert_eq!(b.local_node().unwrap().as_str(), "me");
}

// ---- types ----

#[test]
fn test_node_id() {
    let id = NodeId::new("node-1");
    assert_eq!(id.as_str(), "node-1");
}

#[test]
fn test_cluster_config() {
    let addr = SocketAddress::v4(127, 0, 0, 1, 9001);
    let seed = SocketAddress::v4(127, 0, 0, 1, 9000);

    let config = ClusterConfig::new(NodeId::new("node-1"), addr).with_seed_nodes(vec![seed]);

    assert!(config.enabled);
    assert_eq!(config.seed_nodes.len(), 1);
}

#[test]
fn cluster_config_default_has_a_decimal_node_id() {
    let c = ClusterConfig::default();
    assert!(!c.enabled);
    assert!(c.node_id.as_str().chars().all(|ch| ch.is_ascii_digit()));
    assert_eq!(c.listen_addr, SocketAddress::v4(127, 0, 0, 1, 0));
    assert_eq!(c.heartbeat_interval_ms, 1000);
    assert_eq!(c.max_retries, 3);
}

#[test]
fn node_id_from_string() {
    let id: NodeId = String::from("x").into();
    assert_eq!(id.to_string(), "x");
}

// ---- failover ----

#[test]
fn test_failover_config_default() {
    let config = FailoverConfig::default();
    assert_eq!(config.max_failures, 3);
    assert_eq!(config.health_check_interval_ms, 5000);
}

#[test]
fn test_node_status_comparison() {
    assert_eq!(NodeStatus::Alive, NodeStatus::Alive);
    assert_ne!(NodeStatus::Alive, NodeStatus::Dead);
}

#[test]
fn silent_node_is_suspected_then_dead_then_recovers() {
    let mut m = FailoverManager::new(NodeId::new("me"));
    m.add_node_at("peer".to_string(), 1_000);
    assert!(m.check_node_health("peer", 10_000).is_none());
    assert_eq!(m.get_node_status("peer"), Some(NodeStatus::Alive));

    match m.check_node_health("peer", 17_000) {
        Some(FailoverEvent::NodeSuspected { node_id, failure_count }) => {
            assert_eq!(node_id, "peer");
            assert_eq!(failure_count, 1);
        }
        other => panic!("expected suspicion, got {:?}", other),
    }
    // A second check while still suspected reports nothing new.
    assert!(m.check_node_health("peer", 18_000).is_none());

    match m.check_node_health("peer", 40_000) {
        Some(FailoverEvent::NodeDead { node_id }) => assert_eq!(node_id, "peer"),
        other => panic!("expected death, got {:?}", other),
    }
    assert!(!m.is_node_alive("peer"));

    match m.record_heartbeat_at("peer", 41_000) {
        Some(FailoverEvent::NodeRecovered { node_id }) => assert_eq!(node_id, "peer"),
        other => panic!("expected recovery, got {:?}", other),
    }
    assert!(m.is_node_alive("peer"));
}

#[test]
fn heartbeat_from_unknown_node_starts_tracking() {
    let mut m = FailoverManager::new(NodeId::new("me"));
    assert!(m.record_heartbeat_at("new", 5).is_none());
    assert_eq!(m.get_node_status("new"), Some(NodeStatus::Alive));
    assert_eq!(m.get_all_node_status().len(), 1);
    m.remove_node("new");
    assert!(m.get_node_status("new").is_none());
    assert!(m.check_node_health("new", 100_000).is_none());
}

#[test]
fn leader_failure_is_reported() {
    let m = FailoverManager::new(NodeId::new("me"));
    match m.handle_leader_failure("boss") {
        FailoverEvent::LeaderFailed { old_leader_id } => assert_eq!(old_leader_id, "boss"),
        other => panic!("unexpected {:?}", other),
    }
}

// ---- gossip ----

#[test]
fn test_gossip_config_default() {
    let config = GossipConfig::default();
    assert_eq!(config.gossip_interval_ms, 1000);
    assert_eq!(config.fanout, 3);
}

#[test]
fn gossip_skips_self_and_keeps_fanout() {
    let members: Vec<String> = ["a", "me", "b", "c", "d"].iter().map(|s| s.to_string()).collect();
    assert_eq!(gossip_targets(&members, "me", 3), vec!["a", "b", "c"]);
    assert_eq!(gossip_targets(&members, "me", 10), vec!["a", "b", "c", "d"]);
    let cfg = GossipConfig::default();
    assert!(silent_too_long(3_000, 1_000, &cfg));
    assert!(!silent_too_long(2_000, 1_000, &cfg));
}

// ---- sync ----

#[test]
fn client_keys_round_trip() {
    assert_eq!(client_key(12345), "client:12345");
    assert_eq!(parse_client_key("client:12345"), Some(12345));
    assert_eq!(parse_client_key("client:+7"), Some(7));
    assert_eq!(parse_client_key("title:1"), None);
    assert_eq!(parse_client_key("client:x"), None);
    assert_eq!(parse_client_key(&client_key(u128::MAX)), Some(u128::MAX));
}

#[test]
fn sync_entries_apply_to_the_route_table() {
    let mut t = GlobalRouteTable::new();
    apply_client_register(&mut t, "client:42", "n1");
    assert_eq!(t.get_node_by_client(&42), Some("n1".to_string()));
    apply_client_register(&mut t, "nonsense", "n1");
    assert_eq!(t.version(), 1);
    apply_client_delete(&mut t, "client:42");
    assert!(t.get_node_by_client(&42).is_none());
}

// ---- forward ----

#[test]
fn forward_routes_to_client_node_then_title_node() {
    let mut table = GlobalRouteTable::with_local_node(NodeId::new("local"));
    table.add_node("remote".to_string(), "10.0.0.2:9000".to_string());
    table.register_client(5, "remote");
    let mut f = MessageForwarder::new(NodeId::new("local"));

    match f.forward_message(&table, 1, 5, "t".to_string(), b"p".to_vec(), false, false, true, 100) {
        ForwardPlan::Remote { target_node, message } => {
            assert_eq!(target_node, "remote");
            assert_eq!(message.forward_id, 1);
            assert_eq!(message.payload, b"p".to_vec());
        }
        _ => panic!("expected a remote forward"),
    }
    let pending = f.handle_ack(1).expect("pending forward");
    assert_eq!(pending.target_node, "remote");
    assert!(f.handle_ack(1).is_none());

    // An unknown client is routed by title; the only node is remote.
    match f.forward_message(&table, 1, 6, "t".to_string(), vec![], false, false, false, 100) {
        ForwardPlan::Remote { message, .. } => assert_eq!(message.forward_id, 2),
        _ => panic!("expected a remote forward"),
    }
}

#[test]
fn forward_to_local_or_nowhere() {
    let mut f = MessageForwarder::new(NodeId::new("local"));
    let empty = GlobalRouteTable::new();
    assert!(matches!(
        f.forward_message(&empty, 1, 2, "t".to_string(), vec![], false, false, false, 0),
        ForwardPlan::NoRoute
    ));
    let mut table = GlobalRouteTable::new();
    table.add_node("local".to_string(), "1.2.3.4:5".to_string());
    match f.forward_message(&table, 1, 2, "t".to_string(), vec![9], true, false, false, 0) {
        ForwardPlan::Local(m) => {
            assert_eq!(m.forward_id, 0);
            assert!(m.is_group);
            assert_eq!(m.payload, vec![9]);
        }
        _ => panic!("expected local delivery"),
    }
}

#[test]
fn pending_forwards_time_out() {
    let mut table = GlobalRouteTable::new();
    table.add_node("r".to_string(), "1.2.3.4:5".to_string());
    let mut f = MessageForwarder::new(NodeId::new("local"));
    let _ = f.forward_message(&table, 1, 0, "t".to_string(), vec![], false, false, true, 100);
    let _ = f.forward_message(&table, 1, 0, "t".to_string(), vec![], false, false, true, 900);
    let expired = f.cleanup_timeout(1_000, 500);
    assert_eq!(expired.len(), 1);
    assert_eq!(expired[0].forward_id, 1);
    assert!(f.handle_ack(2).is_some());
}

#[test]
fn broadcast_skips_the_local_node() {
    let mut table = GlobalRouteTable::new();
    table.add_node("local".to_string(), "1.1.1.1:1".to_string());
    table.add_node("r1".to_string(), "1.1.1.2:1".to_string());
    table.add_node("r2".to_string(), "1.1.1.3:1".to_string());
    let mut f = MessageForwarder::new(NodeId::new("local"));
    let out = f.broadcast_to_nodes(&table, 9, "t".to_string(), vec![1], true, false);
    assert_eq!(out.len(), 2);
    assert!(out.iter().all(|(n, m)| n != "local" && m.target_client_id == 0));
    let ids: Vec<u64> = out.iter().map(|(_, m)| m.forward_id).collect();
    assert_eq!(ids, vec![1, 2]);
}

// ---- transport framing ----

#[test]
fn cluster_frames_round_trip() {
    let a = encode_cluster_frame(b"hello");
    let b = encode_cluster_frame(b"");
    assert_eq!(&a[..4], &[0, 0, 0, 5]);
    let mut buf = BytesMut::new();
    buf.extend_from_slice(&a);
    buf.extend_from_slice(&b);
    buf.extend_from_slice(&[0, 0]);
    let frames = drain_cluster_frames(&mut buf);
    assert_eq!(frames.len(), 2);
    assert_eq!(&frames[0][..], b"hello");
    assert!(frames[1].is_empty());
    assert_eq!(&buf[..], &[0, 0]);
}

#[test]
fn oversized_cluster_frame_header_is_skipped() {
    let mut buf = BytesMut::new();
    buf.put_u32(16 * 1024 * 1024 + 1);
    buf.extend_from_slice(&encode_cluster_frame(b"ok"));
    let frames = drain_cluster_frames(&mut buf);
    assert_eq!(frames.len(), 1);
    assert_eq!(&frames[0][..], b"ok");
    assert!(buf.is_empty());
}

#[test]
fn join_records_the_peer() {
    let join = ClusterMessage::Join(NodeInfo::new(NodeId::new("peer"), SocketAddress::v4(1, 2, 3, 4, 5)));
    let (rec, src) = incoming_source(&None, &join);
    assert_eq!(rec, Some("peer".to_string()));
    assert_eq!(src.as_str(), "peer");
    let hb = ClusterMessage::Heartbeat(HeartbeatMessage { leader_id: NodeId::new("x") });
    let (rec2, src2) = incoming_source(&rec, &hb);
    assert_eq!(rec2, Some("peer".to_string()));
    assert_eq!(src2.as_str(), "peer");
    let (rec3, src3) = incoming_source(&None, &hb);
    assert!(rec3.is_none());
    assert_eq!(src3.as_str(), "unknown");
}

// ---- manager settings ----

#[test]
fn test_cluster_manager_config_default() {
    let config = rexmq::cluster::manager::ClusterManagerConfig::default();
    assert!(config.enable_state_sync);
    assert_eq!(config.failover_config, FailoverConfig::default());
    assert!(!config.cluster.enabled);
}

// ---- membership ----

fn local_config() -> ClusterConfig {
    ClusterConfig::new(NodeId::new("local"), SocketAddress::v4(127, 0, 0, 1, 9000))
}

#[test]
fn handle_join_inserts_node_into_known_nodes() {
    let mut m = rexmq::cluster::node::NodeManager::new(local_config());
    assert!(m.known_node("peer-1").is_none());
    let peer = NodeInfo::new(NodeId::new("peer-1"), SocketAddress::v4(127, 0, 0, 1, 9999));
    m.handle_message(ClusterMessage::Join(peer));
    let known = m.known_node("peer-1").expect("known after join");
    assert_eq!(known.listen_addr, SocketAddress::v4(127, 0, 0, 1, 9999));
    m.handle_message(ClusterMessage::Heartbeat(HeartbeatMessage { leader_id: NodeId::new("x") }));
    assert!(m.known_node("x").is_none());
}

#[test]
fn announcements_name_this_node() {
    let m = rexmq::cluster::node::NodeManager::new(local_config());
    match m.join_message() {
        ClusterMessage::Join(info) => {
            assert_eq!(info.node_id.as_str(), "local");
            assert_eq!(info.listen_addr, SocketAddress::v4(127, 0, 0, 1, 9000));
            assert_eq!(info.last_heartbeat, 0);
        }
        _ => panic!("expected a join"),
    }
    match m.heartbeat_message() {
        ClusterMessage::Heartbeat(h) => assert_eq!(h.leader_id.as_str(), "local"),
        _ => panic!("expected a heartbeat"),
    }
    assert_eq!(
        rexmq::cluster::node::seed_key(&SocketAddress::v4(10, 0, 0, 2, 7000)),
        "seed-10.0.0.2:7000"
    );
}

#[test]
fn ring_changes_move_only_the_affected_keys() {
    let mut ring = HashRing::new();
    for n in ["node1", "node2", "node3"] {
        ring.add_node(n.to_string());
    }
    let keys: Vec<String> = (0..200).map(|i| format!("key{i}")).collect();
    let before: Vec<String> = keys.iter().map(|k| ring.get(k).unwrap().to_string()).collect();

    let mut removed = ring.clone();
    removed.remove_node("node2");
    for (k, owner) in keys.iter().zip(&before) {
        let now = removed.get(k).unwrap();
        if owner != "node2" {
            assert_eq!(now, owner, "{k}");
        } else {
            assert_ne!(now, "node2");
        }
    }

    let mut grown = ring.clone();
    grown.add_node("node4".to_string());
    let mut moved = 0;
    for (k, owner) in keys.iter().zip(&before) {
        let now = grown.get(k).unwrap();
        assert!(now == owner || now == "node4", "{k}");
        if now == "node4" {
            moved += 1;
        }
    }
    assert!(moved > 0);
}

#[test]
fn test_node_manager_creation() {
    let m = rexmq::cluster::node::NodeManager::new(ClusterConfig::default());
    assert!(!m.config().enabled);
}

#[test]
fn handle_forward_does_not_panic_with_local_subscribers() {
    let mut m = rexmq::cluster::node::NodeManager::new(local_config());
    let fwd = rexmq::cluster::types::ForwardMessage {
        forward_id: 1,
        original_source: 0xAA,
        target_client_id: 0x42,
        title: "any".into(),
        payload: vec![1, 2, 3],
        is_group: false,
        is_broadcast: false,
        require_ack: false,
    };
    m.handle_message(ClusterMessage::Forward(fwd));
    assert!(m.known_node("local").is_none());
}

#[test]
fn test_forwarder_creation() {
    let mut f = MessageForwarder::new(NodeId::new("test-node"));
    assert!(f.handle_ack(7).is_none());
}
