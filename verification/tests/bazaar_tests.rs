use openclaw_mesh::error::MeshError;
use openclaw_mesh::records::Stamp;
use openclaw_mesh::store::Store;
use openclaw_mesh::task::{Task, TaskBid, TaskBounty};
use openclaw_mesh::task_bazaar::{SolutionOutcome, TaskBazaar, TaskPatch};

fn stamp(millis: i64) -> Stamp {
    Stamp { iso: format!("2024-01-01T00:00:00.{:03}Z", millis % 1000), millis }
}

fn funded_store(node: &str, amount: i64) -> Store {
    let mut store = Store::open_at(
        "./data".to_string(),
        node.to_string(),
        true,
        Some("acct_op".to_string()),
        1_000_000,
        &stamp(1),
    );
    let account = store.ensure_account(node, "gep-lite-v1").unwrap();
    if amount > 0 {
        store.transfer("acct_genesis", &account.account_id, amount, Some("acct_op".to_string())).unwrap();
    }
    store
}

fn task(description: &str, amount: i64) -> Task {
    Task {
        task_id: String::new(),
        description: description.to_string(),
        task_type: None,
        bounty: TaskBounty { amount, token: String::new() },
        tags: vec![],
        publisher: String::new(),
        status: "whatever".to_string(),
        submissions: vec!["{}".to_string()],
        bids: vec![TaskBid { node_id: "n".to_string(), amount: 1, timestamp: 1 }],
        published_at: String::new(),
        voting_started_at: None,
        assigned_to: None,
        assigned_at: None,
        winner: None,
        completed_at: None,
    }
}

fn bid(node: &str, amount: i64, timestamp: i64) -> TaskBid {
    TaskBid { node_id: node.to_string(), amount, timestamp }
}

fn patch_status(status: &str) -> TaskPatch {
    let mut p = TaskPatch::empty();
    p.status = Some(status.to_string());
    p
}

#[test]
fn publish_task_without_description_fails() {
    let mut store = funded_store("node_p", 500);
    let mut bazaar = TaskBazaar::new("node_p".to_string());
    assert_eq!(bazaar.publish_task(&mut store, task("", 100)), Err(MeshError::MissingDescription));
    assert_eq!(bazaar.publish_task(&mut store, task("  \t\n", 100)), Err(MeshError::MissingDescription));
    assert_eq!(bazaar.get_task_count(), 0);
    assert_eq!(store.get_balance("node_p"), Ok(500));
}

#[test]
fn publish_task_without_bounty_fails() {
    let mut store = funded_store("node_p", 500);
    let mut bazaar = TaskBazaar::new("node_p".to_string());
    assert_eq!(bazaar.publish_task(&mut store, task("d", 0)), Err(MeshError::MissingBounty));
    assert_eq!(bazaar.publish_task(&mut store, task("d", -3)), Err(MeshError::MissingBounty));
    assert_eq!(bazaar.get_task_count(), 0);
}

#[test]
fn publish_task_locks_the_bounty() {
    let mut store = funded_store("node_p", 500);
    let mut bazaar = TaskBazaar::new("node_p".to_string());
    let task_id = bazaar.publish_task(&mut store, task("d", 100)).unwrap();
    assert!(task_id.starts_with("task_"));
    assert_eq!(task_id.len(), 21);
    assert_eq!(store.get_balance("node_p"), Ok(400));
    let escrows = store.list_escrows().unwrap();
    assert_eq!(escrows.len(), 1);
    assert_eq!(escrows[0].task_id, task_id);
    assert_eq!(escrows[0].amount, 100);
    assert_eq!(escrows[0].token, "CLAW");
    let stored = bazaar.get_task(&task_id).unwrap();
    assert_eq!(stored.status, "open");
    assert_eq!(stored.publisher, "node_p");
    assert_eq!(stored.bounty.token, "CLAW");
    assert!(stored.bids.is_empty());
    assert!(stored.submissions.is_empty());
    assert!(!stored.published_at.is_empty());
    let balance = bazaar.get_balance(&store).unwrap();
    assert_eq!(balance.available, 400);
    assert_eq!(balance.locked, 100);
}

#[test]
fn publish_task_fails_when_the_publisher_cannot_pay() {
    let mut store = funded_store("node_p", 50);
    let mut bazaar = TaskBazaar::new("node_p".to_string());
    assert_eq!(bazaar.publish_task(&mut store, task("d", 100)), Err(MeshError::InsufficientBalance));
    assert_eq!(bazaar.get_task_count(), 0);
    assert_eq!(store.get_balance("node_p"), Ok(50));
}

#[test]
fn publish_task_keeps_what_the_task_names() {
    let mut store = funded_store("node_p", 500);
    let mut bazaar = TaskBazaar::new("node_local".to_string());
    let mut t = task("d", 10);
    t.task_id = "task_mine".to_string();
    t.publisher = "node_p".to_string();
    t.bounty.token = "GOLD".to_string();
    let id = bazaar
        .publish_task_with(&mut store, t, "task_drawn".to_string(), "acct_drawn".to_string(), &stamp(7))
        .unwrap();
    assert_eq!(id, "task_mine");
    let stored = bazaar.get_task("task_mine").unwrap();
    assert_eq!(stored.publisher, "node_p");
    assert_eq!(stored.bounty.token, "GOLD");
    assert_eq!(stored.published_at, stamp(7).iso);
    assert_eq!(store.get_balance("node_p"), Ok(490));
}

#[test]
fn handle_new_task_opens_unknown_tasks_and_ignores_known_ones() {
    let mut bazaar = TaskBazaar::new("node_w".to_string());
    let mut t = task("d", 100);
    t.task_id = "task_1".to_string();
    t.publisher = "node_p".to_string();
    bazaar.handle_new_task(t.clone());
    let stored = bazaar.get_task("task_1").unwrap();
    assert_eq!(stored.status, "open");
    assert!(stored.bids.is_empty());
    assert!(stored.submissions.is_empty());
    bazaar.add_bid_at("task_1", bid("node_w", 90, 10), 10);
    let mut again = t.clone();
    again.description = "changed".to_string();
    bazaar.handle_new_task(again);
    let kept = bazaar.get_task("task_1").unwrap();
    assert_eq!(kept.description, "d");
    assert_eq!(kept.status, "voting");
    assert_eq!(kept.bids.len(), 1);
    assert_eq!(bazaar.get_task_count(), 1);
}

#[test]
fn the_first_bid_starts_the_voting() {
    let mut bazaar = TaskBazaar::new("node_p".to_string());
    let mut t = task("d", 100);
    t.task_id = "task_1".to_string();
    bazaar.handle_new_task(t);
    assert!(bazaar.add_bid_at("nothing", bid("n1", 1, 1), 5).is_none());
    let after = bazaar.add_bid_at("task_1", bid("n1", 50, 10), 1234).unwrap();
    assert_eq!(after.status, "voting");
    assert_eq!(after.voting_started_at, Some(1234));
    assert_eq!(after.bids.len(), 1);
    let second = bazaar.add_bid_at("task_1", bid("n2", 40, 11), 9999).unwrap();
    assert_eq!(second.voting_started_at, Some(1234));
    assert_eq!(second.bids.len(), 2);
    let repeated = bazaar.add_bid_at("task_1", bid("n1", 1, 12), 9999).unwrap();
    assert_eq!(repeated.bids.len(), 2);
    assert_eq!(repeated.bids[0].amount, 50);
    let now_based = bazaar.add_bid("task_1", bid("n3", 60, 13)).unwrap();
    assert_eq!(now_based.bids.len(), 3);
}

#[test]
fn determine_winner_takes_the_lowest_then_the_earliest() {
    let bazaar = TaskBazaar::new("node_p".to_string());
    let mut t = task("d", 100);
    t.bids = vec![bid("N1", 50, 10), bid("N2", 50, 5)];
    assert_eq!(bazaar.determine_winner(&t).unwrap().node_id, "N2");
    t.bids = vec![bid("a", 70, 1), bid("b", 60, 9), bid("c", 60, 3), bid("d", 61, 0)];
    assert_eq!(bazaar.determine_winner(&t).unwrap().node_id, "c");
    t.bids = vec![bid("first", 5, 5), bid("second", 5, 5)];
    assert_eq!(bazaar.determine_winner(&t).unwrap().node_id, "first");
    t.bids = vec![];
    assert!(bazaar.determine_winner(&t).is_none());
}

#[test]
fn the_status_of_a_task_only_moves_forward() {
    let mut bazaar = TaskBazaar::new("node_p".to_string());
    let mut t = task("d", 100);
    t.task_id = "task_1".to_string();
    bazaar.handle_new_task(t);
    assert_eq!(bazaar.update_task("task_1", patch_status("assigned")).unwrap().status, "assigned");
    assert_eq!(bazaar.update_task("task_1", patch_status("open")).unwrap().status, "assigned");
    assert_eq!(bazaar.update_task("task_1", patch_status("voting")).unwrap().status, "assigned");
    assert_eq!(bazaar.update_task("task_1", patch_status("nonsense")).unwrap().status, "assigned");
    assert_eq!(bazaar.update_task("task_1", patch_status("completed")).unwrap().status, "completed");
    assert_eq!(bazaar.update_task("task_1", patch_status("assigned")).unwrap().status, "completed");
    assert_eq!(bazaar.update_task("task_1", patch_status("completed")).unwrap().status, "completed");
    assert!(bazaar.add_bid_at("task_1", bid("late", 1, 1), 5).unwrap().status == "completed");
    assert!(bazaar.update_task("unknown", patch_status("voting")).is_none());
}

#[test]
fn update_task_sets_the_parts_that_the_patch_names() {
    let mut bazaar = TaskBazaar::new("node_p".to_string());
    let mut t = task("d", 100);
    t.task_id = "task_1".to_string();
    bazaar.handle_new_task(t);
    let patch = TaskPatch::from_json(
        "{\"status\":\"assigned\",\"assigned_to\":\"node_w\",\"assigned_at\":77,\"voting_started_at\":5,\"bids\":[{\"nodeId\":\"node_w\",\"amount\":90,\"timestamp\":3},{\"broken\":true}]}",
    );
    let after = bazaar.update_task("task_1", patch).unwrap();
    assert_eq!(after.status, "assigned");
    assert_eq!(after.assigned_to, Some("node_w".to_string()));
    assert_eq!(after.assigned_at, Some(77));
    assert_eq!(after.voting_started_at, Some(5));
    assert_eq!(after.bids.len(), 1);
    assert_eq!(after.bids[0].amount, 90);
    let untouched = bazaar.update_task("task_1", TaskPatch::from_json("{}")).unwrap();
    assert_eq!(untouched.assigned_to, Some("node_w".to_string()));
    assert_eq!(untouched.bids.len(), 1);
}

#[test]
fn a_solution_completes_the_task_and_pays_the_solver() {
    let mut store = funded_store("node_p", 500);
    let mut bazaar = TaskBazaar::new("node_p".to_string());
    let task_id = bazaar.publish_task(&mut store, task("d", 100)).unwrap();
    let outcome = bazaar
        .submit_solution(&mut store, &task_id, "{\"description\":\"done\"}", "node_w")
        .unwrap();
    assert_eq!(outcome, SolutionOutcome::Rewarded { reward: 100 });
    assert_eq!(outcome.to_json(), "{\"reward\":100,\"success\":true,\"winner\":true}");
    assert_eq!(store.get_balance("node_w"), Ok(100));
    assert_eq!(store.get_balance("node_p"), Ok(400));
    assert_eq!(store.list_escrows().unwrap().len(), 0);
    let done = bazaar.get_task(&task_id).unwrap();
    assert_eq!(done.status, "completed");
    assert_eq!(done.winner, Some("node_w".to_string()));
    assert!(done.completed_at.is_some());
    assert_eq!(
        bazaar.submit_solution(&mut store, &task_id, "{\"description\":\"again\"}", "node_x"),
        Err(MeshError::TaskNotOpen)
    );
    assert_eq!(store.get_balance("node_w"), Ok(100));
}

#[test]
fn a_solution_is_turned_away_as_told() {
    let mut store = funded_store("node_p", 500);
    let mut bazaar = TaskBazaar::new("node_p".to_string());
    assert_eq!(
        bazaar.submit_solution(&mut store, "task_none", "{\"code\":\"x\"}", "node_w"),
        Err(MeshError::TaskNotFound)
    );
    let mut coded = task("d", 100);
    coded.task_type = Some("code".to_string());
    let task_id = bazaar.publish_task(&mut store, coded).unwrap();
    assert_eq!(
        bazaar.submit_solution(&mut store, &task_id, "{}", "node_w"),
        Ok(SolutionOutcome::Invalid)
    );
    assert_eq!(SolutionOutcome::Invalid.to_json(), "{\"reason\":\"Invalid solution\",\"success\":false}");
    assert_eq!(
        SolutionOutcome::AlreadyCompleted.to_json(),
        "{\"reason\":\"Task already completed\",\"success\":false}"
    );
    assert_eq!(
        bazaar.submit_solution(&mut store, &task_id, "{\"code\":\"0123456789\"}", "node_w"),
        Ok(SolutionOutcome::Invalid)
    );
    assert_eq!(
        bazaar.submit_solution(&mut store, &task_id, "\"no object\"", "node_w"),
        Ok(SolutionOutcome::Invalid)
    );
    assert_eq!(bazaar.get_task(&task_id).unwrap().status, "open");
    bazaar.add_bid_at(&task_id, bid("node_w", 90, 1), 1);
    assert_eq!(
        bazaar.submit_solution(&mut store, &task_id, "{\"code\":\"01234567890\"}", "node_w"),
        Err(MeshError::TaskNotOpen)
    );
    bazaar.update_task(&task_id, patch_status("assigned"));
    assert_eq!(
        bazaar.submit_solution(&mut store, &task_id, "{\"code\":\"01234567890\"}", "node_w"),
        Ok(SolutionOutcome::Rewarded { reward: 100 })
    );
}

#[test]
fn a_code_task_asks_for_code_of_more_than_ten_bytes() {
    let mut store = funded_store("node_p", 500);
    let mut bazaar = TaskBazaar::new("node_p".to_string());
    let mut coded = task("d", 10);
    coded.task_type = Some("code".to_string());
    let task_id = bazaar.publish_task(&mut store, coded).unwrap();
    for solution in [
        "{\"code\":5,\"description\":\"x\"}",
        "{\"description\":\"a long description\"}",
        "{\"code\":\"0123456789\"}",
    ] {
        assert_eq!(
            bazaar.submit_solution(&mut store, &task_id, solution, "node_w"),
            Ok(SolutionOutcome::Invalid)
        );
    }
    assert_eq!(
        bazaar.submit_solution(&mut store, &task_id, "{\"code\":\"01234567890\"}", "node_w"),
        Ok(SolutionOutcome::Rewarded { reward: 10 })
    );
    let plain = bazaar.publish_task(&mut store, task("d", 10)).unwrap();
    assert_eq!(
        bazaar.submit_solution(&mut store, &plain, "{\"code\":5}", "node_w"),
        Ok(SolutionOutcome::Rewarded { reward: 10 })
    );
}

#[test]
fn tasks_are_listed_newest_first() {
    let mut store = funded_store("node_p", 500);
    let mut bazaar = TaskBazaar::new("node_p".to_string());
    for (id, at) in [("task_a", 100), ("task_b", 300), ("task_c", 200), ("task_d", 300)] {
        let mut t = task("d", 1);
        t.task_id = id.to_string();
        bazaar
            .publish_task_with(&mut store, t, "task_x".to_string(), "acct_x".to_string(), &stamp(at))
            .unwrap();
    }
    let ids: Vec<String> = bazaar.get_tasks().iter().map(|t| t.task_id.clone()).collect();
    assert_eq!(ids, vec!["task_b", "task_d", "task_c", "task_a"]);
}

#[test]
fn stats_count_tasks_and_rewards() {
    let mut store = funded_store("node_p", 500);
    let mut bazaar = TaskBazaar::new("node_p".to_string());
    let a = bazaar.publish_task(&mut store, task("a", 100)).unwrap();
    let b = bazaar.publish_task(&mut store, task("b", 50)).unwrap();
    let _c = bazaar.publish_task(&mut store, task("c", 25)).unwrap();
    bazaar.add_bid_at(&b, bid("n", 1, 1), 1);
    bazaar.submit_solution(&mut store, &a, "{\"description\":\"x\"}", "node_w").unwrap();
    let stats = bazaar.get_stats();
    assert_eq!(stats.total, 3);
    assert_eq!(stats.open, 1);
    assert_eq!(stats.completed, 1);
    assert_eq!(stats.total_rewards, 100);
    let balance = bazaar.get_balance(&store).unwrap();
    assert_eq!(balance.available, 325);
    assert_eq!(balance.locked, 75);
}

#[test]
fn the_balance_of_a_node_without_account_is_not_found() {
    let store = funded_store("node_p", 5);
    let bazaar = TaskBazaar::new("node_other".to_string());
    assert_eq!(bazaar.get_balance(&store).err(), Some(MeshError::AccountNotFound));
}

#[test]
fn a_task_published_under_a_used_identifier_locks_nothing_more() {
    let mut store = funded_store("node_p", 500);
    let mut bazaar = TaskBazaar::new("node_p".to_string());
    let mut first = task("d", 100);
    first.task_id = "task_fixed".to_string();
    assert_eq!(bazaar.publish_task(&mut store, first), Ok("task_fixed".to_string()));
    assert_eq!(store.get_balance("node_p"), Ok(400));
    let mut second = task("again", 50);
    second.task_id = "task_fixed".to_string();
    assert_eq!(bazaar.publish_task(&mut store, second), Err(MeshError::EscrowExists));
    assert_eq!(store.get_balance("node_p"), Ok(400));
    let escrows = store.list_escrows().unwrap();
    assert_eq!(escrows.len(), 1);
    assert_eq!(escrows[0].amount, 100);
    assert_eq!(bazaar.get_task("task_fixed").unwrap().description, "d");
    let balances: i64 = store.list_accounts().unwrap().iter().map(|a| a.balance).sum();
    assert_eq!(balances + 100, 1_000_000);
}
