use openclaw_mesh::error::MeshError;
use openclaw_mesh::memory_query::MemoryQuery;
use openclaw_mesh::p2p::{
    cleanup_seen_messages, should_relay_message, store_dht_value, Action, DhtConfig, DhtLookup,
    MeshNode, Session,
};
use openclaw_mesh::table::Table;
use openclaw_mesh::util::hash_to_u64;
use openclaw_mesh::wire::WireMessage;

fn node(name: &str) -> MeshNode {
    MeshNode::new(name.to_string(), 4000, vec![], DhtConfig { k: 8, alpha: 3, max_hops: 6 })
}

fn message(kind: &str, id: Option<&str>, hops: Option<i32>) -> WireMessage {
    let mut m = WireMessage::new(kind, "{\"n\":1}".to_string(), 1);
    m.message_id = id.map(|s| s.to_string());
    m.hops_left = hops;
    m
}

/// Connects `peer` to `node` as a peer that has shaken hands.
fn connect(node: &mut MeshNode, peer: &str, now: i64) -> Session {
    let address = format!("10.0.0.1:{}", peer.len() + 1000 + (hash_to_u64(peer) % 1000) as usize);
    let (mut session, _) = node.peer_connected(&address, false, now);
    let mut hello = WireMessage::new("handshake", "{}".to_string(), now);
    hello.node_id = Some(peer.to_string());
    node.handle_frame(&mut session, hello, now);
    session
}

fn set_rtt(node: &mut MeshNode, session: &mut Session, ping_id: &str, sent_at: i64, back_at: i64) {
    node.heartbeat_with(sent_at, &vec![ping_id.to_string()]);
    let pong = message("pong", Some(ping_id), None);
    node.handle_frame(session, pong, back_at);
}

fn sends(actions: &[Action]) -> Vec<(String, WireMessage)> {
    actions
        .iter()
        .filter_map(|a| match a {
            Action::Send { peer_id, message } => Some((peer_id.clone(), message.clone())),
            _ => None,
        })
        .collect()
}

fn deliveries(actions: &[Action]) -> usize {
    actions.iter().filter(|a| matches!(a, Action::Deliver { .. })).count()
}

#[test]
fn a_connection_is_entered_under_its_address_and_renamed_by_the_handshake() {
    let mut a = node("node_a");
    let (mut session, hello) = a.peer_connected("1.2.3.4:5", true, 10);
    assert_eq!(hello.message_type, "handshake");
    assert_eq!(hello.node_id, Some("node_a".to_string()));
    assert_eq!(hello.port, Some(4000));
    assert_eq!(hello.timestamp, Some(10));
    assert_eq!(a.peer_count(), 1);
    assert!(a.get_peers(11).is_empty());

    let mut theirs = WireMessage::new("handshake", "{}".to_string(), 12);
    theirs.node_id = Some("node_b".to_string());
    let actions = a.handle_frame(&mut session, theirs.clone(), 12);
    assert_eq!(session.peer_id, Some("node_b".to_string()));
    assert_eq!(session.active_id(), "node_b");
    let peers = a.get_peers(13);
    assert_eq!(peers.len(), 1);
    assert_eq!(peers[0].node_id, "node_b");
    assert_eq!(peers[0].ip, "1.2.3.4:5");
    assert_eq!(peers[0].connected_at, 13);
    let replies = sends(&actions);
    assert_eq!(replies.len(), 1);
    assert_eq!(replies[0].0, "node_b");
    assert_eq!(replies[0].1.message_type, "handshake");
    assert_eq!(replies[0].1.node_id, Some("node_a".to_string()));
    assert_eq!(deliveries(&actions), 1);

    let again = a.handle_frame(&mut session, theirs, 14);
    assert!(sends(&again).is_empty());
    assert_eq!(a.peer_count(), 1);
}

#[test]
fn the_side_that_accepted_does_not_answer_a_handshake() {
    let mut b = node("node_b");
    let (mut session, _) = b.peer_connected("9.9.9.9:1", false, 1);
    let mut theirs = WireMessage::new("handshake", "{}".to_string(), 2);
    theirs.node_id = Some("node_a".to_string());
    let actions = b.handle_frame(&mut session, theirs, 2);
    assert!(sends(&actions).is_empty());
    assert_eq!(session.active_id(), "node_a");
}

#[test]
fn a_closed_or_failed_connection_forgets_its_peer() {
    let mut a = node("node_a");
    let session = connect(&mut a, "node_b", 1);
    let _other = connect(&mut a, "node_c", 1);
    assert_eq!(a.peer_count(), 2);
    a.peer_closed(&session);
    assert_eq!(a.peer_count(), 1);
    a.send_failed("node_c");
    assert_eq!(a.peer_count(), 0);
    a.send_failed("node_c");
    assert_eq!(a.peer_count(), 0);
}

#[test]
fn a_message_received_twice_is_dispatched_once() {
    let mut a = node("node_a");
    let mut session = connect(&mut a, "node_b", 1);
    let first = a.handle_frame(&mut session, message("capsule", Some("fixed-id"), Some(3)), 10);
    let second = a.handle_frame(&mut session, message("capsule", Some("fixed-id"), Some(3)), 11);
    assert_eq!(deliveries(&first), 1);
    assert_eq!(deliveries(&second), 0);
    assert!(second.is_empty());
    let mut other = connect(&mut a, "node_c", 1);
    let third = a.handle_frame(&mut other, message("task", Some("fixed-id"), Some(3)), 12);
    assert!(third.is_empty());
    let fresh = a.handle_frame(&mut other, message("capsule", Some("other-id"), Some(3)), 13);
    assert_eq!(deliveries(&fresh), 1);
}

#[test]
fn messages_without_identifier_are_always_dispatched() {
    let mut a = node("node_a");
    let mut session = connect(&mut a, "node_b", 1);
    assert_eq!(deliveries(&a.handle_frame(&mut session, message("capsule", None, Some(1)), 10)), 1);
    assert_eq!(deliveries(&a.handle_frame(&mut session, message("capsule", None, Some(1)), 11)), 1);
}

#[test]
fn a_message_without_hops_left_is_dropped() {
    let mut a = node("node_a");
    let mut session = connect(&mut a, "node_b", 1);
    let actions = a.handle_frame(&mut session, message("capsule", Some("m1"), Some(-1)), 10);
    assert!(actions.is_empty());
    let actions = a.handle_frame(&mut session, message("capsule", Some("m2"), Some(0)), 10);
    assert_eq!(deliveries(&actions), 1);
    assert!(sends(&actions).is_empty());
}

#[test]
fn seen_messages_expire_and_the_oldest_are_evicted() {
    let mut seen: Table<i64> = Table::new();
    seen.put("old".to_string(), 0);
    seen.put("mid".to_string(), 200_000);
    seen.put("new".to_string(), 300_000);
    cleanup_seen_messages(&mut seen, 300_001, 300_000, 10_000);
    assert!(!seen.contains_key("old"));
    assert!(seen.contains_key("mid"));
    assert!(seen.contains_key("new"));
    cleanup_seen_messages(&mut seen, 300_001, 300_000, 1);
    assert!(!seen.contains_key("mid"));
    assert!(seen.contains_key("new"));
    seen.put("edge".to_string(), 1);
    cleanup_seen_messages(&mut seen, 300_001, 300_000, 5);
    assert!(seen.contains_key("edge"));
    assert_eq!(seen.len(), 2);
}

#[test]
fn an_expired_identifier_is_dispatched_again() {
    let mut a = node("node_a");
    let mut session = connect(&mut a, "node_b", 1);
    assert_eq!(deliveries(&a.handle_frame(&mut session, message("capsule", Some("m"), Some(1)), 0)), 1);
    assert_eq!(deliveries(&a.handle_frame(&mut session, message("capsule", Some("x"), Some(1)), 300_001)), 1);
    assert_eq!(deliveries(&a.handle_frame(&mut session, message("capsule", Some("m"), Some(1)), 300_002)), 1);
}

#[test]
fn transport_messages_are_not_relayed() {
    for kind in ["handshake", "ping", "pong", "query", "query_response", "dht_store", "dht_find", "dht_value", "dht_"] {
        assert!(!should_relay_message(&message(kind, None, None)), "{}", kind);
    }
    for kind in ["capsule", "task", "task_bid", "task_assigned", "task_completed", "dht", "anything"] {
        assert!(should_relay_message(&message(kind, None, None)), "{}", kind);
    }
}

#[test]
fn a_relay_decrements_the_hops_and_spares_the_sender() {
    let mut a = node("node_a");
    let mut from = connect(&mut a, "node_b", 1);
    connect(&mut a, "node_c", 1);
    connect(&mut a, "node_d", 1);
    let actions = a.handle_frame(&mut from, message("capsule", Some("m1"), Some(2)), 10);
    assert_eq!(deliveries(&actions), 1);
    let out = sends(&actions);
    let mut targets: Vec<String> = out.iter().map(|(p, _)| p.clone()).collect();
    targets.sort();
    assert_eq!(targets, vec!["node_c".to_string(), "node_d".to_string()]);
    for (_, m) in &out {
        assert_eq!(m.hops_left, Some(1));
        assert_eq!(m.message_id, Some("m1".to_string()));
        assert_eq!(m.message_type, "capsule");
    }
    let unrelayed = a.handle_frame(&mut from, message("query", Some("q1"), Some(2)), 10);
    assert_eq!(deliveries(&unrelayed), 1);
    assert!(sends(&unrelayed).is_empty());
}

#[test]
fn messages_without_hops_get_the_default_of_their_class() {
    let mut a = node("node_a");
    let mut from = connect(&mut a, "node_b", 1);
    connect(&mut a, "node_c", 1);
    let capsule = sends(&a.handle_frame(&mut from, message("capsule", Some("c"), None), 10));
    assert_eq!(capsule[0].1.hops_left, Some(2));
    let task = sends(&a.handle_frame(&mut from, message("task_bid", Some("t"), None), 10));
    assert_eq!(task[0].1.hops_left, Some(3));
}

#[test]
fn the_fan_out_is_bounded() {
    let mut a = node("node_a");
    let mut from = connect(&mut a, "node_origin", 1);
    for i in 0..12 {
        connect(&mut a, &format!("node_{:02}", i), 1);
    }
    let other = sends(&a.handle_frame(&mut from, message("capsule", Some("c"), Some(3)), 10));
    assert_eq!(other.len(), 6);
    let task = sends(&a.handle_frame(&mut from, message("task", Some("t"), Some(3)), 10));
    assert_eq!(task.len(), 8);
    let mut names: Vec<String> = task.iter().map(|(p, _)| p.clone()).collect();
    names.sort();
    names.dedup();
    assert_eq!(names.len(), 8);
    assert!(!names.contains(&"node_origin".to_string()));
    let sent = sends(&a.broadcast(message("capsule", None, Some(3)), None, 20));
    assert_eq!(sent.len(), 6);
    let all = sends(&a.broadcast_all(message("capsule", None, Some(3)), Some("node_origin".to_string()), 20));
    assert_eq!(all.len(), 12);
}

#[test]
fn measured_peers_come_first_the_quickest_first() {
    let mut a = node("node_a");
    let mut slow = connect(&mut a, "node_slow", 1);
    connect(&mut a, "node_unknown", 1);
    let mut fast = connect(&mut a, "node_fast", 1);
    set_rtt(&mut a, &mut slow, "ping-a", 100, 400);
    a.heartbeat_with(500, &vec!["ping-c".to_string(), "ping-d".to_string(), "ping-b".to_string()]);
    a.handle_frame(&mut fast, message("pong", Some("ping-b"), None), 520);

    assert_eq!(a.select_peers(8, &None, &vec![0, 1, 2]), vec!["node_fast", "node_slow", "node_unknown"]);
    assert_eq!(a.select_peers(1, &None, &vec![0]), vec!["node_fast"]);
    assert_eq!(a.select_peers(2, &Some("node_fast".to_string()), &vec![0]), vec!["node_slow", "node_unknown"]);
    assert_eq!(a.select_peers(0, &None, &vec![0]), Vec::<String>::new());
    assert_eq!(a.select_peers(8, &None, &vec![]), vec!["node_fast", "node_slow"]);
}

#[test]
fn unmeasured_peers_are_taken_in_the_drawn_order() {
    let mut a = node("node_a");
    for name in ["node_1", "node_2", "node_3"] {
        connect(&mut a, name, 1);
    }
    assert_eq!(a.select_peers(8, &None, &vec![2, 0, 1]), vec!["node_3", "node_1", "node_2"]);
    assert_eq!(a.select_peers(2, &None, &vec![1, 2, 0]), vec!["node_2", "node_3"]);
    assert_eq!(a.select_peers(8, &None, &vec![1, 1, 7, 0]), vec!["node_2", "node_1"]);
}

#[test]
fn a_ping_is_answered_and_a_pong_gives_the_round_trip() {
    let mut a = node("node_a");
    let mut session = connect(&mut a, "node_b", 1);
    let reply = sends(&a.handle_frame(&mut session, message("ping", Some("ping-1"), None), 50));
    assert_eq!(reply.len(), 1);
    assert_eq!(reply[0].0, "node_b");
    assert_eq!(reply[0].1.message_type, "pong");
    assert_eq!(reply[0].1.message_id, Some("ping-1".to_string()));
    assert_eq!(reply[0].1.payload, "{}");

    let pings = sends(&a.heartbeat(1_000));
    assert_eq!(pings.len(), 1);
    assert_eq!(pings[0].0, "node_b");
    assert_eq!(pings[0].1.message_type, "ping");
    assert_eq!(pings[0].1.timestamp, Some(1_000));
    let id = pings[0].1.message_id.clone().unwrap();
    assert_eq!(id.len(), 12);
    let pong = message("pong", Some(&id), None);
    let actions = a.handle_frame(&mut session, pong, 1_040);
    assert!(actions.is_empty());
    connect(&mut a, "node_c", 1);
    assert_eq!(a.select_peers(1, &None, &vec![0]), vec!["node_b"]);
}

#[test]
fn a_pong_that_comes_too_late_is_ignored() {
    let mut a = node("node_a");
    let mut session = connect(&mut a, "node_b", 1);
    connect(&mut a, "node_c", 1);
    a.heartbeat_with(1_000, &vec!["late".to_string()]);
    a.heartbeat_with(16_001, &vec![]);
    a.handle_frame(&mut session, message("pong", Some("late"), None), 16_002);
    assert_eq!(a.select_peers(1, &None, &vec![1]), vec!["node_c"]);
}

#[test]
fn the_closest_peers_are_chosen_by_xor_distance() {
    let mut a = node("node_a");
    let names = ["node_1", "node_2", "node_3", "node_4", "node_5"];
    for name in names {
        connect(&mut a, name, 1);
    }
    let (_raw, _) = a.peer_connected("7.7.7.7:7", false, 1);
    let key = "capsule:abc";
    let mut expected: Vec<&str> = names.to_vec();
    expected.sort_by_key(|n| hash_to_u64(n) ^ hash_to_u64(key));
    let all = a.select_closest_peers(key, 10, &None);
    assert_eq!(all, expected);
    let three = a.select_closest_peers(key, 3, &None);
    assert_eq!(three, expected[..3].to_vec());
    let without = a.select_closest_peers(key, 10, &Some(expected[0].to_string()));
    assert_eq!(without, expected[1..].to_vec());
}

#[test]
fn a_value_is_copied_to_eight_peers_and_a_lookup_asks_three() {
    let mut a = node("node_a");
    for i in 0..12 {
        connect(&mut a, &format!("node_{:02}", i), 1);
    }
    let copies = sends(&a.dht_store("k".to_string(), "1".to_string(), 5));
    assert_eq!(copies.len(), 8);
    match a.dht_find("other".to_string(), 6) {
        DhtLookup::Asked { actions, .. } => assert_eq!(sends(&actions).len(), 3),
        DhtLookup::Found { .. } => panic!("nothing is held"),
    }
    let mut narrow = MeshNode::new("node_n".to_string(), 1, vec![], DhtConfig { k: 0, alpha: 0, max_hops: 2 });
    connect(&mut narrow, "node_x", 1);
    connect(&mut narrow, "node_y", 1);
    assert_eq!(sends(&narrow.dht_store("k".to_string(), "1".to_string(), 5)).len(), 1);
    match narrow.dht_find("other".to_string(), 6) {
        DhtLookup::Asked { actions, .. } => {
            let asked = sends(&actions);
            assert_eq!(asked.len(), 1);
            assert_eq!(asked[0].1.hops_left, Some(2));
        },
        DhtLookup::Found { .. } => panic!("nothing is held"),
    }
}

#[test]
fn what_is_stored_in_the_hash_table_is_found_again() {
    let mut a = node("node_a");
    connect(&mut a, "node_b", 1);
    connect(&mut a, "node_a", 1);
    let (_raw, _) = a.peer_connected("7.7.7.7:7", false, 1);
    let actions = a.dht_store("capsule:1".to_string(), "{\"type\":\"note\"}".to_string(), 5);
    assert_eq!(a.dht_find_local("capsule:1"), Some("{\"type\":\"note\"}".to_string()));
    match a.dht_find("capsule:1".to_string(), 6) {
        DhtLookup::Found { value } => assert_eq!(value, "{\"type\":\"note\"}"),
        DhtLookup::Asked { .. } => panic!("the key is held here"),
    }
    let out = sends(&actions);
    assert_eq!(out.len(), 1);
    assert_eq!(out[0].0, "node_b");
    assert_eq!(out[0].1.message_type, "dht_store");
    assert_eq!(out[0].1.payload, "{\"key\":\"capsule:1\",\"value\":{\"type\":\"note\"}}");
    assert_eq!(out[0].1.message_id, None);
    assert_eq!(out[0].1.hops_left, None);

    a.dht_store("capsule:1".to_string(), "\"replaced\"".to_string(), 7);
    assert_eq!(a.dht_find_local("capsule:1"), Some("\"replaced\"".to_string()));
    assert_eq!(a.dht_find_local("capsule:2"), None);
}

#[test]
fn arrays_in_the_hash_table_are_merged() {
    let mut table: Table<String> = Table::new();
    store_dht_value(&mut table, "token:x", "[\"a\",\"b\"]".to_string());
    store_dht_value(&mut table, "token:x", "[\"b\",\"c\",\"a\",\"c\",{\"k\":1}]".to_string());
    assert_eq!(table.get("token:x"), Some(&"[\"a\",\"b\",\"c\",{\"k\":1}]".to_string()));
    store_dht_value(&mut table, "token:x", "\"text\"".to_string());
    assert_eq!(table.get("token:x"), Some(&"\"text\"".to_string()));
    store_dht_value(&mut table, "token:x", "[1]".to_string());
    assert_eq!(table.get("token:x"), Some(&"[1]".to_string()));
    store_dht_value(&mut table, "token:y", "[2,2]".to_string());
    assert_eq!(table.get("token:y"), Some(&"[2,2]".to_string()));
}

#[test]
fn a_peer_takes_in_what_is_stored_and_answers_lookups() {
    let mut a = node("node_a");
    let mut b = node("node_b");
    connect(&mut a, "node_b", 1);
    let mut a_at_b = connect(&mut b, "node_a", 1);

    for (_, m) in sends(&a.dht_store("k".to_string(), "[\"v\"]".to_string(), 5)) {
        let line = m.encode();
        assert!(b.handle_line(&mut a_at_b, &line, 6).is_empty());
    }
    assert_eq!(b.dht_find_local("k"), Some("[\"v\"]".to_string()));

    let mut find = WireMessage::new("dht_find", "{\"key\":\"k\",\"origin\":\"node_a\"}".to_string(), 7);
    find.request_id = Some("req-1".to_string());
    find.hops_left = Some(6);
    let reply = sends(&b.handle_frame(&mut a_at_b, find, 8));
    assert_eq!(reply.len(), 1);
    assert_eq!(reply[0].0, "node_a");
    assert_eq!(reply[0].1.message_type, "dht_value");
    assert_eq!(reply[0].1.request_id, Some("req-1".to_string()));
    assert_eq!(reply[0].1.payload, "{\"key\":\"k\",\"value\":[\"v\"]}");
}

#[test]
fn an_unknown_key_is_asked_for_and_times_out() {
    let mut a = node("node_a");
    let mut b = node("node_b");
    let mut b_at_a = connect(&mut a, "node_b", 1);
    let mut a_at_b = connect(&mut b, "node_a", 1);

    let (request_id, asked) = match a.dht_find("missing".to_string(), 10) {
        DhtLookup::Asked { request_id, actions } => (request_id, actions),
        DhtLookup::Found { .. } => panic!("nothing is held"),
    };
    assert_eq!(request_id.len(), 12);
    let out = sends(&asked);
    assert_eq!(out.len(), 1);
    assert_eq!(out[0].0, "node_b");
    assert_eq!(out[0].1.message_type, "dht_find");
    assert_eq!(out[0].1.hops_left, Some(6));
    assert_eq!(out[0].1.request_id, Some(request_id.clone()));
    assert_eq!(out[0].1.payload, "{\"key\":\"missing\",\"origin\":\"node_a\"}");

    let at_b = b.handle_frame(&mut a_at_b, out[0].1.clone(), 11);
    assert!(at_b.is_empty());

    assert_eq!(a.dht_find_expired(&request_id), MeshError::DhtTimeout);
    let mut late = WireMessage::new("dht_value", "{\"key\":\"missing\",\"value\":1}".to_string(), 5_100);
    late.request_id = Some(request_id);
    let actions = a.handle_frame(&mut b_at_a, late, 5_100);
    assert!(actions.iter().all(|a| !matches!(a, Action::ResolveDht { .. })));
}

#[test]
fn a_lookup_travels_on_and_its_answer_comes_back() {
    let mut a = node("node_a");
    let mut b = node("node_b");
    let mut c = node("node_c");
    let mut b_at_a = connect(&mut a, "node_b", 1);
    let mut a_at_b = connect(&mut b, "node_a", 1);
    let mut c_at_b = connect(&mut b, "node_c", 1);
    let mut b_at_c = connect(&mut c, "node_b", 1);
    c.dht_store("k".to_string(), "\"v\"".to_string(), 2);

    let (request_id, asked) = match a.dht_find_with("k".to_string(), 10, "req-7".to_string()) {
        DhtLookup::Asked { request_id, actions } => (request_id, actions),
        DhtLookup::Found { .. } => panic!("nothing is held at a"),
    };
    assert_eq!(request_id, "req-7");
    let to_b = sends(&asked);
    assert_eq!(to_b.len(), 1);

    let forwarded = sends(&b.handle_frame(&mut a_at_b, to_b[0].1.clone(), 11));
    assert_eq!(forwarded.len(), 1);
    assert_eq!(forwarded[0].0, "node_c");
    assert_eq!(forwarded[0].1.hops_left, Some(5));

    let answer = sends(&c.handle_frame(&mut b_at_c, forwarded[0].1.clone(), 12));
    assert_eq!(answer.len(), 1);
    assert_eq!(answer[0].0, "node_b");
    assert_eq!(answer[0].1.message_type, "dht_value");

    let back = sends(&b.handle_frame(&mut c_at_b, answer[0].1.clone(), 13));
    assert_eq!(back.len(), 1);
    assert_eq!(back[0].0, "node_a");

    let resolved = a.handle_frame(&mut b_at_a, back[0].1.clone(), 14);
    assert_eq!(resolved.len(), 1);
    match &resolved[0] {
        Action::ResolveDht { request_id, value } => {
            assert_eq!(request_id, "req-7");
            assert_eq!(value, &Some("\"v\"".to_string()));
        },
        _ => panic!("the waiter is to be resolved"),
    }
    let again = a.handle_frame(&mut b_at_a, back[0].1.clone(), 15);
    assert!(again.iter().all(|a| !matches!(a, Action::ResolveDht { .. })));
}

#[test]
fn ways_back_and_waiters_are_forgotten_after_five_seconds() {
    let mut b = node("node_b");
    let mut a_at_b = connect(&mut b, "node_a", 1);
    let mut c_at_b = connect(&mut b, "node_c", 1);
    let mut find = WireMessage::new("dht_find", "{\"key\":\"k\"}".to_string(), 100);
    find.request_id = Some("req-old".to_string());
    find.hops_left = Some(3);
    assert_eq!(sends(&b.handle_frame(&mut a_at_b, find.clone(), 100)).len(), 1);
    find.request_id = Some("req-new".to_string());
    assert_eq!(sends(&b.handle_frame(&mut a_at_b, find, 3_000)).len(), 1);
    b.reap(5_100);
    let mut kept = WireMessage::new("dht_value", "{\"key\":\"k\",\"value\":1}".to_string(), 5_101);
    kept.request_id = Some("req-old".to_string());
    assert_eq!(sends(&b.handle_frame(&mut c_at_b, kept.clone(), 5_101)).len(), 1);
    b.reap(8_001);
    let mut late = kept.clone();
    late.request_id = Some("req-new".to_string());
    assert!(sends(&b.handle_frame(&mut c_at_b, late, 8_002)).is_empty());

    b.expect_answer("q-1".to_string(), 10_000);
    match b.dht_find_with("missing".to_string(), 10_000, "req-own".to_string()) {
        DhtLookup::Asked { .. } => {},
        DhtLookup::Found { .. } => panic!("nothing is held"),
    }
    b.reap(15_001);
    let mut response = WireMessage::new("query_response", "{}".to_string(), 15_002);
    response.request_id = Some("q-1".to_string());
    assert!(b.handle_frame(&mut c_at_b, response, 15_002).is_empty());
    let mut value = WireMessage::new("dht_value", "{\"value\":1}".to_string(), 15_003);
    value.request_id = Some("req-own".to_string());
    let actions = b.handle_frame(&mut c_at_b, value, 15_003);
    assert!(actions.iter().all(|a| !matches!(a, Action::ResolveDht { .. })));
}

#[test]
fn a_lookup_without_hops_left_stops() {
    let mut b = node("node_b");
    let mut a_at_b = connect(&mut b, "node_a", 1);
    connect(&mut b, "node_c", 1);
    let mut find = WireMessage::new("dht_find", "{\"key\":\"k\"}".to_string(), 7);
    find.request_id = Some("r".to_string());
    find.hops_left = Some(0);
    assert!(b.handle_frame(&mut a_at_b, find, 8).is_empty());
    let mut keyless = WireMessage::new("dht_find", "{}".to_string(), 7);
    keyless.hops_left = Some(3);
    assert!(b.handle_frame(&mut a_at_b, keyless, 8).is_empty());
}

#[test]
fn an_awaited_answer_to_a_query_is_resolved_once() {
    let mut a = node("node_a");
    let mut session = connect(&mut a, "node_b", 1);
    a.expect_answer("q-1".to_string(), 5);
    let mut response = WireMessage::new("query_response", "{\"memories\":[]}".to_string(), 6);
    response.request_id = Some("q-1".to_string());
    let actions = a.handle_frame(&mut session, response.clone(), 6);
    assert_eq!(actions.len(), 1);
    match &actions[0] {
        Action::ResolveQuery { request_id, payload } => {
            assert_eq!(request_id, "q-1");
            assert_eq!(payload, "{\"memories\":[]}");
        },
        _ => panic!("the waiter is to be resolved"),
    }
    assert!(a.handle_frame(&mut session, response, 7).is_empty());
}

#[test]
fn a_broadcast_gets_an_identifier_and_is_not_taken_back_in() {
    let mut a = node("node_a");
    let mut session = connect(&mut a, "node_b", 1);
    let sent = sends(&a.broadcast_capsule("{\"type\":\"note\"}".to_string(), 10));
    assert_eq!(sent.len(), 1);
    assert_eq!(sent[0].1.message_type, "capsule");
    assert_eq!(sent[0].1.hops_left, Some(3));
    assert_eq!(sent[0].1.payload, "{\"type\":\"note\"}");
    let id = sent[0].1.message_id.clone().unwrap();
    assert_eq!(id.len(), 12);
    let echoed = a.handle_frame(&mut session, sent[0].1.clone(), 11);
    assert!(echoed.is_empty());
    let task = sends(&a.broadcast_task("{}".to_string(), 12));
    assert_eq!(task[0].1.message_type, "task");
    assert_eq!(task[0].1.hops_left, Some(4));
    let kept = sends(&a.broadcast_with(message("capsule", Some("mine"), None), None, 13, "drawn".to_string(), &vec![0]));
    assert_eq!(kept[0].1.message_id, Some("mine".to_string()));
    let drawn = sends(&a.broadcast_with(message("capsule", None, None), None, 13, "drawn".to_string(), &vec![0]));
    assert_eq!(drawn[0].1.message_id, Some("drawn".to_string()));
    let none = a.broadcast_with(message("capsule", None, None), Some("node_b".to_string()), 13, "d2".to_string(), &vec![0]);
    assert!(none.is_empty());
}

#[test]
fn send_to_peer_reaches_known_peers_only() {
    let mut a = node("node_a");
    connect(&mut a, "node_b", 1);
    assert_eq!(a.send_to_peer("node_b", message("query", None, None)).len(), 1);
    assert!(a.send_to_peer("node_z", message("query", None, None)).is_empty());
}

/// Carries actions between three nodes A, B and C, connected in a line,
/// until nothing is left to carry, and counts what was delivered where.
fn carry(
    nodes: &mut Vec<MeshNode>,
    sessions: &mut Vec<Vec<Option<Session>>>,
    start: Vec<(usize, Action)>,
    now: i64,
) -> (Vec<usize>, usize) {
    let names: Vec<String> = nodes.iter().map(|n| n.node_id.clone()).collect();
    let mut delivered = vec![0usize; nodes.len()];
    let mut queue = start;
    let mut carried = 0usize;
    while let Some((from, action)) = queue.pop() {
        carried += 1;
        assert!(carried < 1_000, "the gossip does not come to rest");
        match action {
            Action::Send { peer_id, message } => {
                let to = names.iter().position(|n| *n == peer_id).unwrap();
                let mut session = sessions[to][from].take().unwrap();
                let line = message.encode();
                let actions = nodes[to].handle_line(&mut session, &line, now);
                sessions[to][from] = Some(session);
                for a in actions {
                    queue.push((to, a));
                }
            },
            Action::Deliver { .. } => delivered[from] += 1,
            _ => {},
        }
    }
    (delivered, carried)
}

fn line_of_three() -> (Vec<MeshNode>, Vec<Vec<Option<Session>>>) {
    let mut nodes = vec![node("node_a"), node("node_b"), node("node_c")];
    let mut sessions: Vec<Vec<Option<Session>>> = vec![vec![None, None, None], vec![None, None, None], vec![None, None, None]];
    for (x, y) in [(0usize, 1usize), (1, 2)] {
        let name_x = nodes[x].node_id.clone();
        let name_y = nodes[y].node_id.clone();
        sessions[x][y] = Some(connect(&mut nodes[x], &name_y, 1));
        sessions[y][x] = Some(connect(&mut nodes[y], &name_x, 1));
    }
    (nodes, sessions)
}

#[test]
fn gossip_across_three_nodes_comes_to_rest() {
    let (mut nodes, mut sessions) = line_of_three();
    let start: Vec<(usize, Action)> = nodes[0]
        .broadcast_capsule("{\"type\":\"note\"}".to_string(), 10)
        .into_iter()
        .map(|a| (0usize, a))
        .collect();
    assert_eq!(start.len(), 1);
    let (delivered, carried) = carry(&mut nodes, &mut sessions, start, 11);
    assert_eq!(delivered, vec![0, 1, 1]);
    assert!(carried <= 6);
}

#[test]
fn gossip_in_a_triangle_reaches_everyone_once() {
    let (mut nodes, mut sessions) = line_of_three();
    sessions[0][2] = Some(connect(&mut nodes[0], "node_c", 1));
    sessions[2][0] = Some(connect(&mut nodes[2], "node_a", 1));
    let start: Vec<(usize, Action)> = nodes[0]
        .broadcast_task("{}".to_string(), 10)
        .into_iter()
        .map(|a| (0usize, a))
        .collect();
    assert_eq!(start.len(), 2);
    let (delivered, _) = carry(&mut nodes, &mut sessions, start, 11);
    assert_eq!(delivered, vec![0, 1, 1]);
}

#[test]
fn a_capsule_published_on_one_node_is_found_from_another() {
    let mut a = node("node_a");
    let mut b = node("node_b");
    connect(&mut a, "node_b", 1);
    let mut a_at_b = connect(&mut b, "node_a", 1);

    let capsule = "{\"content\":\"hello world\",\"tags\":[\"x\"],\"type\":\"note\"}";
    let asset_id = openclaw_mesh::util::sha256_hex(capsule);
    let outgoing = a.publish_capsule(&asset_id, capsule, 5);
    assert_eq!(sends(&outgoing).len(), 4);
    assert_eq!(a.dht_find_local("token:hello"), Some(format!("[\"{}\"]", asset_id)));
    for (to, m) in sends(&outgoing) {
        assert_eq!(to, "node_b");
        b.handle_line(&mut a_at_b, &m.encode(), 6);
    }

    let mut query = MeshNode::query_memories("{\"tags\":[\"x\"]}");
    let mut asked = Vec::new();
    while let Some(key) = query.wanted() {
        asked.push(key.clone());
        let value = b.dht_find_local(&key);
        assert!(value.is_some());
        query.supply(value);
    }
    assert_eq!(asked, vec!["token:x".to_string(), format!("capsule:{}", asset_id)]);
    assert_eq!(query.results(), &vec![capsule.to_string()]);
}

#[test]
fn a_memory_query_intersects_and_filters() {
    let mut query = MemoryQuery::from_json("{\"query\":\"Alpha beta\",\"tags\":[\"T\"],\"type\":\"note\"}");
    assert_eq!(query.wanted(), Some("token:alpha".to_string()));
    query.supply(Some("[\"1\",\"2\",\"3\",\"2\",5]".to_string()));
    assert_eq!(query.wanted(), Some("token:beta".to_string()));
    query.supply(Some("[\"3\",\"1\",\"9\"]".to_string()));
    assert_eq!(query.wanted(), Some("token:t".to_string()));
    query.supply(Some("[\"1\",\"3\"]".to_string()));
    assert_eq!(query.wanted(), Some("capsule:1".to_string()));
    query.supply(Some("{\"type\":\"note\",\"tags\":[\"t\"]}".to_string()));
    assert_eq!(query.wanted(), Some("capsule:3".to_string()));
    query.supply(Some("{\"type\":\"fact\",\"tags\":[\"t\"]}".to_string()));
    assert_eq!(query.wanted(), None);
    query.supply(Some("{\"type\":\"note\",\"tags\":[\"t\"]}".to_string()));
    assert_eq!(query.results(), &vec!["{\"type\":\"note\",\"tags\":[\"t\"]}".to_string()]);
}

#[test]
fn a_memory_query_stops_when_nothing_is_left() {
    let mut query = MemoryQuery::from_json("{\"query\":\"a b c\"}");
    assert_eq!(query.wanted(), Some("token:a".to_string()));
    query.supply(Some("[\"1\"]".to_string()));
    assert_eq!(query.wanted(), Some("token:b".to_string()));
    query.supply(None);
    assert_eq!(query.wanted(), None);
    assert!(query.results().is_empty());

    let empty = MemoryQuery::from_json("{}");
    assert_eq!(empty.wanted(), None);

    let mut missing = MemoryQuery::from_json("{\"tags\":[\"x\"]}");
    missing.supply(Some("[\"1\"]".to_string()));
    assert_eq!(missing.wanted(), Some("capsule:1".to_string()));
    missing.supply(None);
    assert_eq!(missing.wanted(), None);
    assert!(missing.results().is_empty());
}

#[test]
fn a_capsule_is_matched_against_a_filter_given_as_json() {
    assert!(MeshNode::matches_capsule_filter("{\"type\":\"note\",\"tags\":[\"X\"]}", "{\"type\":\"note\",\"tags\":[\"x\"]}"));
    assert!(!MeshNode::matches_capsule_filter("{\"type\":\"note\"}", "{\"tags\":[\"x\"]}"));
    assert!(MeshNode::matches_capsule_filter("{\"type\":\"note\"}", "{}"));
}

#[test]
fn a_write_reaches_every_node_of_the_table_once_and_no_other() {
    let mut a = node("node_a");
    let named = ["node_b", "node_c", "node_d", "node_e", "node_f"];
    for peer in named {
        connect(&mut a, peer, 1);
    }
    a.peer_connected("10.9.9.9:7000", false, 1);
    let copies = sends(&a.dht_store("k".to_string(), "\"v\"".to_string(), 5));
    let mut reached: Vec<String> = copies.iter().map(|(peer, _)| peer.clone()).collect();
    reached.sort();
    assert_eq!(reached, named.iter().map(|s| s.to_string()).collect::<Vec<_>>());
    for (_, copy) in &copies {
        assert_eq!(copy.message_type, "dht_store");
        assert_eq!(copy.payload, "{\"key\":\"k\",\"value\":\"v\"}");
    }
    match a.dht_find("k".to_string(), 6) {
        DhtLookup::Found { value } => assert_eq!(value, "\"v\""),
        DhtLookup::Asked { .. } => panic!("the value is held here"),
    }
}

#[test]
fn a_relay_never_goes_back_to_the_sender_nor_twice_to_a_peer() {
    let mut a = node("node_a");
    let mut from = connect(&mut a, "node_s", 1);
    for i in 0..6 {
        connect(&mut a, &format!("node_{}", i), 1);
    }
    let places: Vec<usize> = vec![2, 0, 1, 2, 0, 5, 9, 4, 3];
    let actions = a.handle_frame_with(&mut from, message("capsule", Some("m1"), Some(3)), 50, &places);
    assert_eq!(deliveries(&actions), 1);
    let relayed = sends(&actions);
    assert!(!relayed.is_empty());
    assert_eq!(relayed.len(), 6);
    let mut reached: Vec<String> = relayed.iter().map(|(peer, _)| peer.clone()).collect();
    assert!(!reached.contains(&"node_s".to_string()));
    reached.sort();
    reached.dedup();
    assert_eq!(reached.len(), relayed.len());
    for (_, copy) in &relayed {
        assert_eq!(copy.message_id, Some("m1".to_string()));
        assert_eq!(copy.hops_left, Some(2));
    }
    let again = a.handle_frame_with(&mut from, message("capsule", Some("m1"), Some(3)), 51, &places);
    assert!(again.is_empty());
    let spent = a.handle_frame_with(&mut from, message("capsule", Some("m2"), Some(0)), 52, &places);
    assert_eq!(deliveries(&spent), 1);
    assert!(sends(&spent).is_empty());
}
