use openclaw_mesh::capsule::CapsuleSnapshot;
use openclaw_mesh::dispatch::{handle_inbound, memories_asked, memories_response};
use openclaw_mesh::p2p::{Action, DhtConfig, MeshNode, Session};
use openclaw_mesh::records::Stamp;
use openclaw_mesh::store::Store;
use openclaw_mesh::task::{Task, TaskBid, TaskBounty};
use openclaw_mesh::task_bazaar::{TaskBazaar, TaskPatch};
use openclaw_mesh::task_worker::{bid_amount, Draw, TaskWorker};
use openclaw_mesh::wire::{InboundMessage, WireMessage};

fn stamp(millis: i64) -> Stamp {
    Stamp { iso: format!("2024-01-01T00:00:00.{:03}Z", millis % 1000), millis }
}

fn draw(n: usize) -> Draw {
    Draw { message_id: format!("message-{:04}", n), places: vec![0, 1, 2, 3], account_id: format!("acct_{:016x}", n) }
}

fn node(name: &str) -> MeshNode {
    MeshNode::new(name.to_string(), 4000, vec![], DhtConfig { k: 8, alpha: 3, max_hops: 6 })
}

fn connect(node: &mut MeshNode, peer: &str) -> Session {
    let (mut session, _) = node.peer_connected(&format!("10.0.0.1:{}", peer.len()), false, 1);
    let mut hello = WireMessage::new("handshake", "{}".to_string(), 1);
    hello.node_id = Some(peer.to_string());
    node.handle_frame(&mut session, hello, 1);
    session
}

fn funded_store(node: &str, amount: i64) -> Store {
    let mut store = Store::open_at(
        "./data".to_string(),
        node.to_string(),
        true,
        Some("acct_op".to_string()),
        1_000_000,
        &stamp(1),
    );
    let account = store.ensure_account(node, "gep-lite-v1").unwrap();
    if amount > 0 {
        store.transfer("acct_genesis", &account.account_id, amount, Some("acct_op".to_string())).unwrap();
    }
    store
}

fn task(id: &str, publisher: &str, amount: i64) -> Task {
    Task {
        task_id: id.to_string(),
        description: "d".to_string(),
        task_type: None,
        bounty: TaskBounty { amount, token: "CLAW".to_string() },
        tags: vec![],
        publisher: publisher.to_string(),
        status: "open".to_string(),
        submissions: vec![],
        bids: vec![],
        published_at: "2024-01-01T00:00:00Z".to_string(),
        voting_started_at: None,
        assigned_to: None,
        assigned_at: None,
        winner: None,
        completed_at: None,
    }
}

fn sends(actions: &[Action]) -> Vec<(String, WireMessage)> {
    actions
        .iter()
        .filter_map(|a| match a {
            Action::Send { peer_id, message } => Some((peer_id.clone(), message.clone())),
            _ => None,
        })
        .collect()
}

fn inbound(peer: &str, kind: &str, payload: &str) -> InboundMessage {
    InboundMessage { peer_id: peer.to_string(), message: WireMessage::new(kind, payload.to_string(), 1) }
}

#[test]
fn a_bid_offers_nine_tenths_rounded_down() {
    assert_eq!(bid_amount(100), 90);
    assert_eq!(bid_amount(1), 0);
    assert_eq!(bid_amount(9), 8);
    assert_eq!(bid_amount(10), 9);
    assert_eq!(bid_amount(11), 9);
    assert_eq!(bid_amount(0), 0);
    assert_eq!(bid_amount(-1), -1);
    assert_eq!(bid_amount(-10), -9);
    assert_eq!(bid_amount(-11), -10);
    assert_eq!(bid_amount(i64::MAX), 8_301_034_833_169_298_226);
    assert_eq!(bid_amount(i64::MIN), -8_301_034_833_169_298_228);
}

#[test]
fn the_worker_bids_once_on_open_tasks() {
    let mut bazaar = TaskBazaar::new("node_w".to_string());
    let mut mesh = node("node_w");
    connect(&mut mesh, "node_p");
    let mut worker = TaskWorker::new("node_w".to_string());
    bazaar.handle_new_task(task("task_1", "node_p", 100));
    bazaar.handle_new_task(task("task_2", "node_p", 55));
    bazaar.update_task("task_2", TaskPatch::from_json("{\"status\":\"assigned\"}"));

    let tasks = bazaar.get_tasks();
    let mut out = Vec::new();
    worker.check_tasks_with(&mut bazaar, &mut mesh, &tasks, 1_000, &vec![draw(1), draw(2)], &mut out);
    let sent = sends(&out);
    assert_eq!(sent.len(), 1);
    assert_eq!(sent[0].0, "node_p");
    assert_eq!(sent[0].1.message_type, "task_bid");
    assert_eq!(sent[0].1.hops_left, Some(4));
    assert_eq!(sent[0].1.timestamp, Some(1_000));
    assert!(sent[0].1.message_id.is_some());
    assert_eq!(
        sent[0].1.payload,
        "{\"bid\":{\"amount\":90,\"nodeId\":\"node_w\",\"timestamp\":1000},\"taskId\":\"task_1\"}"
    );
    let after = bazaar.get_task("task_1").unwrap();
    assert_eq!(after.status, "voting");
    assert_eq!(after.voting_started_at, Some(1_000));
    assert_eq!(after.bids.len(), 1);
    assert_eq!(after.bids[0].amount, 90);
    assert_eq!(bazaar.get_task("task_2").unwrap().bids.len(), 0);

    let again = worker.check_tasks(&mut bazaar, &mut mesh, 2_000);
    assert!(again.is_empty());
    assert_eq!(bazaar.get_task("task_1").unwrap().bids.len(), 1);
}

#[test]
fn without_draws_the_worker_leaves_tasks_alone() {
    let mut bazaar = TaskBazaar::new("node_w".to_string());
    let mut mesh = node("node_w");
    let mut worker = TaskWorker::new("node_w".to_string());
    bazaar.handle_new_task(task("task_1", "node_p", 100));
    let tasks = bazaar.get_tasks();
    let mut out = Vec::new();
    worker.check_tasks_with(&mut bazaar, &mut mesh, &tasks, 1_000, &vec![], &mut out);
    assert!(out.is_empty());
    assert_eq!(bazaar.get_task("task_1").unwrap().status, "open");
}

#[test]
fn a_published_task_is_auctioned_assigned_and_settled() {
    // Node P publishes a task with a bounty of 100.
    let mut p_store = funded_store("node_p", 500);
    let mut p_bazaar = TaskBazaar::new("node_p".to_string());
    let mut p_mesh = node("node_p");
    let mut w_at_p = connect(&mut p_mesh, "node_w");
    let mut p_worker = TaskWorker::new("node_p".to_string());
    let mut published = task("", "", 100);
    published.bounty.token = String::new();
    let task_id = p_bazaar.publish_task(&mut p_store, published).unwrap();
    assert_eq!(p_store.get_balance("node_p"), Ok(400));
    let escrows = p_store.list_escrows().unwrap();
    assert_eq!(escrows.len(), 1);
    assert_eq!(escrows[0].task_id, task_id);
    assert_eq!(escrows[0].amount, 100);
    let announced = sends(&p_mesh.broadcast_task(p_bazaar.get_task(&task_id).unwrap().to_json(), 1_000));
    assert_eq!(announced.len(), 1);

    // Node W, the only peer, takes the task in and bids 90.
    let mut w_store = funded_store("node_w", 0);
    let mut w_bazaar = TaskBazaar::new("node_w".to_string());
    let mut w_mesh = node("node_w");
    let mut p_at_w = connect(&mut w_mesh, "node_p");
    let mut w_worker = TaskWorker::new("node_w".to_string());
    for action in w_mesh.handle_line(&mut p_at_w, &announced[0].1.encode(), 1_001) {
        if let Action::Deliver { inbound } = action {
            handle_inbound(inbound, &mut w_store, &mut w_bazaar, &w_mesh, 1_001);
        }
    }
    assert_eq!(w_bazaar.get_task(&task_id).unwrap().status, "open");
    let bids = sends(&w_worker.check_tasks(&mut w_bazaar, &mut w_mesh, 2_000));
    assert_eq!(bids.len(), 1);
    assert_eq!(bids[0].0, "node_p");
    for action in p_mesh.handle_line(&mut w_at_p, &bids[0].1.encode(), 2_001) {
        if let Action::Deliver { inbound } = action {
            handle_inbound(inbound, &mut p_store, &mut p_bazaar, &p_mesh, 2_001);
        }
    }
    let voting = p_bazaar.get_task(&task_id).unwrap();
    assert_eq!(voting.status, "voting");
    assert_eq!(voting.bids.len(), 1);
    assert_eq!(voting.bids[0].node_id, "node_w");
    assert_eq!(voting.bids[0].amount, 90);
    assert_eq!(voting.voting_started_at, Some(2_001));

    // Before five seconds of voting nothing is settled.
    assert!(p_worker.process_voting(&mut p_bazaar, &mut p_store, &mut p_mesh, &stamp(7_000)).is_empty());
    assert_eq!(p_bazaar.get_task(&task_id).unwrap().status, "voting");

    // After five seconds P assigns the task to W and says so.
    let told = sends(&p_worker.process_voting(&mut p_bazaar, &mut p_store, &mut p_mesh, &stamp(7_001)));
    assert_eq!(told.len(), 1);
    assert_eq!(told[0].0, "node_w");
    assert_eq!(told[0].1.message_type, "task_assigned");
    assert_eq!(
        told[0].1.payload,
        format!("{{\"assignedAt\":7001,\"assignedTo\":\"node_w\",\"taskId\":\"{}\"}}", task_id)
    );
    let assigned = p_bazaar.get_task(&task_id).unwrap();
    assert_eq!(assigned.status, "assigned");
    assert_eq!(assigned.assigned_to, Some("node_w".to_string()));
    assert_eq!(assigned.assigned_at, Some(7_001));
    for action in w_mesh.handle_line(&mut p_at_w, &told[0].1.encode(), 7_002) {
        if let Action::Deliver { inbound } = action {
            handle_inbound(inbound, &mut w_store, &mut w_bazaar, &w_mesh, 7_002);
        }
    }
    assert_eq!(w_bazaar.get_task(&task_id).unwrap().status, "assigned");
    assert_eq!(w_bazaar.get_task(&task_id).unwrap().assigned_to, Some("node_w".to_string()));

    // W hands in a valid solution against the escrow that P holds.
    let before = p_store.get_balance("node_w").unwrap_or(0);
    let outcome = p_bazaar
        .submit_solution(&mut p_store, &task_id, "{\"code\":\"return true;\",\"description\":\"Auto-solved by TaskWorker\"}", "node_w")
        .unwrap();
    assert_eq!(outcome.to_json(), "{\"reward\":100,\"success\":true,\"winner\":true}");
    assert_eq!(p_store.get_balance("node_w"), Ok(before + 100));
    assert_eq!(p_store.get_balance("node_p"), Ok(400));
    assert!(p_store.list_escrows().unwrap().is_empty());
    assert_eq!(p_bazaar.get_task(&task_id).unwrap().status, "completed");
}

#[test]
fn a_coordinator_that_wins_completes_the_task_at_once() {
    let mut store = funded_store("node_p", 500);
    let mut bazaar = TaskBazaar::new("node_p".to_string());
    let mut mesh = node("node_p");
    connect(&mut mesh, "node_w");
    let mut worker = TaskWorker::new("node_p".to_string());
    let mut code = task("", "", 100);
    code.task_type = Some("code".to_string());
    let task_id = bazaar.publish_task(&mut store, code).unwrap();

    let first = worker.run_once_at(&mut bazaar, &mut store, &mut mesh, &stamp(1_000));
    assert_eq!(sends(&first).len(), 1);
    assert_eq!(sends(&first)[0].1.message_type, "task_bid");
    bazaar.add_bid_at(&task_id, TaskBid { node_id: "node_w".to_string(), amount: 95, timestamp: 1_500 }, 1_500);

    let early = worker.run_once_at(&mut bazaar, &mut store, &mut mesh, &stamp(5_999));
    assert!(early.is_empty());
    let settled = sends(&worker.run_once_at(&mut bazaar, &mut store, &mut mesh, &stamp(6_000)));
    let kinds: Vec<String> = settled.iter().map(|(_, m)| m.message_type.clone()).collect();
    assert_eq!(kinds, vec!["task_assigned".to_string(), "task_completed".to_string()]);
    assert_eq!(
        settled[1].1.payload,
        format!("{{\"taskId\":\"{}\",\"winner\":\"node_p\"}}", task_id)
    );
    assert_ne!(settled[0].1.message_id, settled[1].1.message_id);
    let done = bazaar.get_task(&task_id).unwrap();
    assert_eq!(done.status, "completed");
    assert_eq!(done.winner, Some("node_p".to_string()));
    assert_eq!(done.assigned_to, Some("node_p".to_string()));
    assert_eq!(store.get_balance("node_p"), Ok(500));
    assert!(store.list_escrows().unwrap().is_empty());
    assert!(worker.run_once(&mut bazaar, &mut store, &mut mesh).is_empty());
}

#[test]
fn only_the_publisher_settles_an_auction() {
    let mut store = funded_store("node_w", 0);
    let mut bazaar = TaskBazaar::new("node_w".to_string());
    let mut mesh = node("node_w");
    let mut worker = TaskWorker::new("node_w".to_string());
    bazaar.handle_new_task(task("task_1", "node_p", 100));
    bazaar.add_bid_at("task_1", TaskBid { node_id: "node_w".to_string(), amount: 90, timestamp: 1 }, 1);
    let tasks = bazaar.get_tasks();
    let mut out = Vec::new();
    worker.process_voting_with(&mut bazaar, &mut store, &mut mesh, &tasks, &stamp(100_000), &vec![draw(1), draw(2)], &mut out);
    assert!(out.is_empty());
    assert_eq!(bazaar.get_task("task_1").unwrap().status, "voting");
}

#[test]
fn the_voting_counts_from_the_first_bid_where_no_start_is_noted() {
    let mut store = funded_store("node_p", 500);
    let mut bazaar = TaskBazaar::new("node_p".to_string());
    let mut mesh = node("node_p");
    let mut worker = TaskWorker::new("node_p".to_string());
    bazaar.handle_new_task(task("task_1", "node_p", 100));
    let patch = TaskPatch::from_json("{\"status\":\"voting\",\"bids\":[{\"nodeId\":\"node_w\",\"amount\":90,\"timestamp\":4000}]}");
    bazaar.update_task("task_1", patch);
    assert_eq!(bazaar.get_task("task_1").unwrap().voting_started_at, None);
    let tasks = bazaar.get_tasks();
    let mut out = Vec::new();
    worker.process_voting_with(&mut bazaar, &mut store, &mut mesh, &tasks, &stamp(8_999), &vec![draw(1), draw(2)], &mut out);
    assert_eq!(bazaar.get_task("task_1").unwrap().status, "voting");
    worker.process_voting_with(&mut bazaar, &mut store, &mut mesh, &tasks, &stamp(9_000), &vec![draw(1), draw(2)], &mut out);
    assert_eq!(bazaar.get_task("task_1").unwrap().status, "assigned");
}

#[test]
fn the_dispatcher_stores_capsules_and_takes_in_tasks() {
    let mut store = funded_store("node_a", 0);
    let mut bazaar = TaskBazaar::new("node_a".to_string());
    let mesh = node("node_a");
    assert!(handle_inbound(inbound("node_b", "capsule", "{\"tags\":[\"x\"]}"), &mut store, &mut bazaar, &mesh, 5).is_empty());
    assert_eq!(store.get_count(), 1);
    handle_inbound(inbound("node_b", "capsule", "{\"tags\":[\"x\"]}"), &mut store, &mut bazaar, &mesh, 5);
    assert_eq!(store.get_count(), 1);

    handle_inbound(inbound("node_b", "task", &task("task_9", "node_b", 10).to_json()), &mut store, &mut bazaar, &mesh, 5);
    assert_eq!(bazaar.get_task("task_9").unwrap().status, "open");
    handle_inbound(inbound("node_b", "task", "{\"taskId\":\"broken\"}"), &mut store, &mut bazaar, &mesh, 5);
    assert_eq!(bazaar.get_task_count(), 1);
    handle_inbound(inbound("node_b", "unknown", "{}"), &mut store, &mut bazaar, &mesh, 5);
    handle_inbound(inbound("node_b", "handshake", "{}"), &mut store, &mut bazaar, &mesh, 5);
    assert_eq!(bazaar.get_task_count(), 1);
    assert_eq!(store.get_count(), 1);
}

#[test]
fn the_dispatcher_takes_in_bids_assignments_and_completions() {
    let mut store = funded_store("node_a", 0);
    let mut bazaar = TaskBazaar::new("node_a".to_string());
    let mesh = node("node_a");
    bazaar.handle_new_task(task("task_1", "node_p", 10));

    let bid = "{\"taskId\":\"task_1\",\"bid\":{\"nodeId\":\"node_w\",\"amount\":9,\"timestamp\":3}}";
    handle_inbound(inbound("node_w", "task_bid", bid), &mut store, &mut bazaar, &mesh, 50);
    let t = bazaar.get_task("task_1").unwrap();
    assert_eq!(t.status, "voting");
    assert_eq!(t.bids.len(), 1);
    assert_eq!(t.voting_started_at, Some(50));
    handle_inbound(inbound("node_w", "task_bid", bid), &mut store, &mut bazaar, &mesh, 60);
    assert_eq!(bazaar.get_task("task_1").unwrap().bids.len(), 1);
    assert_eq!(bazaar.get_task("task_1").unwrap().voting_started_at, Some(50));
    handle_inbound(inbound("node_w", "task_bid", "{\"bid\":{\"nodeId\":\"n\",\"amount\":1,\"timestamp\":1}}"), &mut store, &mut bazaar, &mesh, 60);
    handle_inbound(inbound("node_w", "task_bid", "{\"taskId\":\"task_1\"}"), &mut store, &mut bazaar, &mesh, 60);
    assert_eq!(bazaar.get_task("task_1").unwrap().bids.len(), 1);

    handle_inbound(
        inbound("node_p", "task_assigned", "{\"taskId\":\"task_1\",\"assignedTo\":\"node_w\",\"assignedAt\":70}"),
        &mut store,
        &mut bazaar,
        &mesh,
        71,
    );
    let t = bazaar.get_task("task_1").unwrap();
    assert_eq!(t.status, "assigned");
    assert_eq!(t.assigned_to, Some("node_w".to_string()));
    assert_eq!(t.assigned_at, Some(70));
    handle_inbound(inbound("node_p", "task_assigned", "{\"assignedTo\":\"x\"}"), &mut store, &mut bazaar, &mesh, 71);
    assert_eq!(bazaar.get_task("task_1").unwrap().assigned_to, Some("node_w".to_string()));

    handle_inbound(inbound("node_w", "task_completed", "{\"taskId\":\"task_1\",\"winner\":\"node_w\"}"), &mut store, &mut bazaar, &mesh, 80);
    assert_eq!(bazaar.get_task("task_1").unwrap().status, "completed");
    handle_inbound(
        inbound("node_p", "task_assigned", "{\"taskId\":\"task_1\",\"assignedTo\":\"node_z\"}"),
        &mut store,
        &mut bazaar,
        &mesh,
        90,
    );
    let t = bazaar.get_task("task_1").unwrap();
    assert_eq!(t.status, "completed");
    assert_eq!(t.assigned_to, Some("node_z".to_string()));
    assert_eq!(t.assigned_at, Some(0));
}

#[test]
fn the_dispatcher_answers_queries_for_memories() {
    let mut store = funded_store("node_a", 0);
    let mut bazaar = TaskBazaar::new("node_a".to_string());
    let mut mesh = node("node_a");
    connect(&mut mesh, "node_b");
    let id = store.store_capsule("{\"type\":\"note\",\"tags\":[\"x\"],\"content\":\"hello\"}").unwrap();
    store.store_capsule("{\"type\":\"fact\",\"tags\":[\"y\"]}").unwrap();

    let mut query = inbound("node_b", "query", "{\"type\":\"memories\",\"filter\":{\"tags\":[\"X\"]}}");
    query.message.request_id = Some("q-1".to_string());
    let answer = sends(&handle_inbound(query, &mut store, &mut bazaar, &mesh, 9));
    assert_eq!(answer.len(), 1);
    assert_eq!(answer[0].0, "node_b");
    assert_eq!(answer[0].1.message_type, "query_response");
    assert_eq!(answer[0].1.request_id, Some("q-1".to_string()));
    assert_eq!(answer[0].1.timestamp, Some(9));
    assert_eq!(
        answer[0].1.payload,
        format!(
            "{{\"memories\":[{{\"asset_id\":\"{}\",\"capsule\":{{\"content\":\"hello\",\"tags\":[\"x\"],\"type\":\"note\"}}}}]}}",
            id
        )
    );

    let all = inbound("node_b", "query", "{\"type\":\"memories\"}");
    let answer = sends(&handle_inbound(all, &mut store, &mut bazaar, &mesh, 9));
    assert_eq!(answer.len(), 1);
    assert_eq!(memories_asked(&store, "{\"type\":\"memories\"}").len(), 2);

    let other = inbound("node_b", "query", "{\"type\":\"tasks\"}");
    assert!(handle_inbound(other, &mut store, &mut bazaar, &mesh, 9).is_empty());
    let stranger = inbound("node_z", "query", "{\"type\":\"memories\"}");
    assert!(handle_inbound(stranger, &mut store, &mut bazaar, &mesh, 9).is_empty());

    let none = memories_response(&None, &Vec::<CapsuleSnapshot>::new(), 3);
    assert_eq!(none.payload, "{\"memories\":[]}");
    assert_eq!(none.request_id, None);
}
