use openclaw_mesh::capsule::CapsuleFilter;
use openclaw_mesh::error::MeshError;
use openclaw_mesh::records::{Account, Escrow, LedgerEntry, Stamp};
use openclaw_mesh::store::Store;
use openclaw_mesh::util::sha256_hex;

fn stamp(millis: i64) -> Stamp {
    Stamp { iso: format!("2024-01-01T00:00:{:02}+00:00", millis % 60), millis }
}

fn genesis_store(operator: Option<&str>) -> Store {
    Store::open_at(
        "./data".to_string(),
        "node_g".to_string(),
        true,
        operator.map(|s| s.to_string()),
        1_000_000,
        &stamp(1),
    )
}

fn plain_store() -> Store {
    Store::open_at("./data".to_string(), "node_a".to_string(), false, None, 1_000_000, &stamp(1))
}

fn circulating(store: &Store) -> i64 {
    let balances: i64 = store.list_accounts().unwrap().iter().map(|a| a.balance).sum();
    let escrows: i64 = store.list_escrows().unwrap().iter().map(|e| e.amount).sum();
    balances + escrows
}

fn minted(store: &Store) -> i64 {
    store.list_ledger().unwrap().iter().filter(|e| e.entry_type == "mint").map(|e| e.amount).sum()
}

fn expected_hash(e: &LedgerEntry) -> String {
    let mut payload = serde_json::Map::new();
    payload.insert("index".to_string(), serde_json::Value::from(e.index));
    payload.insert("prev_hash".to_string(), serde_json::Value::from(e.prev_hash.clone()));
    payload.insert("timestamp".to_string(), serde_json::Value::from(e.timestamp));
    payload.insert("entry_type".to_string(), serde_json::Value::from(e.entry_type.clone()));
    payload.insert("from".to_string(), serde_json::Value::from(e.from.clone()));
    payload.insert("to".to_string(), serde_json::Value::from(e.to.clone()));
    payload.insert("amount".to_string(), serde_json::Value::from(e.amount));
    payload.insert("meta".to_string(), serde_json::from_str(&e.meta).unwrap());
    sha256_hex(&serde_json::Value::Object(payload).to_string())
}

fn assert_chained(ledger: &[LedgerEntry]) {
    for (i, entry) in ledger.iter().enumerate() {
        assert_eq!(entry.index, i as u64);
        if i == 0 {
            assert_eq!(entry.prev_hash, "");
        } else {
            assert_eq!(entry.prev_hash, ledger[i - 1].hash);
        }
        assert_eq!(entry.hash.len(), 64);
        assert_eq!(entry.hash, expected_hash(entry));
    }
}

#[test]
fn opening_a_genesis_node_mints_the_default_supply() {
    let store = Store::open("./data".to_string(), "node_g".to_string(), true, None).unwrap();
    assert_eq!(store.get_balance("node_genesis"), Ok(1_000_000));
    assert_eq!(store.get_account_id_by_node("node_genesis"), Ok(Some("acct_genesis".to_string())));
    let ledger = store.list_ledger().unwrap();
    assert_eq!(ledger.len(), 1);
    assert_eq!(ledger[0].entry_type, "mint");
    assert_eq!(ledger[0].amount, 1_000_000);
    assert_eq!(ledger[0].to, Some("acct_genesis".to_string()));
    assert_eq!(ledger[0].from, None);
    assert_eq!(ledger[0].account_id, Some("acct_genesis".to_string()));
    assert_eq!(ledger[0].meta, "{}");
    assert_chained(&ledger);
    let accounts = store.list_accounts().unwrap();
    assert_eq!(accounts.len(), 1);
    assert_eq!(accounts[0].algorithm, "genesis");
    assert_eq!(accounts[0].seed_hash, sha256_hex("genesis"));
}

#[test]
fn opening_a_plain_node_holds_nothing() {
    let store = plain_store();
    assert_eq!(store.list_accounts().unwrap().len(), 0);
    assert_eq!(store.list_ledger().unwrap().len(), 0);
    assert_eq!(store.get_count(), 0);
    assert_eq!(store.get_balance("node_a"), Err(MeshError::AccountNotFound));
    assert_eq!(store.get_account_id_by_node("node_a"), Ok(None));
}

#[test]
fn genesis_transfer_needs_the_operator() {
    let mut store = genesis_store(None);
    let operator = store.ensure_account("node_g", "gep-lite-v1").unwrap();
    store.genesis_operator_account_id = Some(operator.account_id.clone());
    let x = store.ensure_account("node_x", "gep-lite-v1").unwrap();

    assert_eq!(
        store.transfer("acct_genesis", &x.account_id, 100, None),
        Err(MeshError::OperatorNotAuthorized)
    );
    assert_eq!(
        store.transfer("acct_genesis", &x.account_id, 100, Some("acct_someone".to_string())),
        Err(MeshError::OperatorNotAuthorized)
    );
    assert_eq!(store.get_balance("node_genesis"), Ok(1_000_000));

    assert_eq!(
        store.transfer("acct_genesis", &x.account_id, 100, Some(operator.account_id.clone())),
        Ok(())
    );
    assert_eq!(store.get_balance("node_genesis"), Ok(999_900));
    assert_eq!(store.get_balance("node_x"), Ok(100));
    let ledger = store.list_ledger().unwrap();
    assert_eq!(ledger.len(), 2);
    assert_eq!(ledger[1].entry_type, "transfer");
    assert_eq!(ledger[1].from, Some("acct_genesis".to_string()));
    assert_eq!(ledger[1].to, Some(x.account_id.clone()));
    assert_eq!(ledger[1].amount, 100);
    assert_chained(&ledger);
}

#[test]
fn genesis_transfer_without_a_configured_operator_is_refused() {
    let mut store = genesis_store(None);
    let x = store.ensure_account("node_x", "gep-lite-v1").unwrap();
    assert_eq!(
        store.transfer("acct_genesis", &x.account_id, 100, Some("acct_any".to_string())),
        Err(MeshError::OperatorNotConfigured)
    );
}

#[test]
fn transfers_into_the_genesis_account_need_no_operator() {
    let mut store = genesis_store(Some("acct_op"));
    let x = store.ensure_account("node_x", "gep-lite-v1").unwrap();
    store.transfer("acct_genesis", &x.account_id, 500, Some("acct_op".to_string())).unwrap();
    assert_eq!(store.transfer(&x.account_id, "acct_genesis", 200, None), Ok(()));
    assert_eq!(store.get_balance("node_x"), Ok(300));
    assert_eq!(store.get_balance("node_genesis"), Ok(999_700));
}

#[test]
fn transfer_of_nothing_or_less_fails() {
    let mut store = genesis_store(Some("acct_op"));
    let x = store.ensure_account("node_x", "gep-lite-v1").unwrap();
    let before = store.list_ledger().unwrap().len();
    assert_eq!(
        store.transfer("acct_genesis", &x.account_id, 0, Some("acct_op".to_string())),
        Err(MeshError::InvalidAmount)
    );
    assert_eq!(
        store.transfer("acct_genesis", &x.account_id, -5, Some("acct_op".to_string())),
        Err(MeshError::InvalidAmount)
    );
    assert_eq!(store.list_ledger().unwrap().len(), before);
    assert_eq!(store.get_balance("node_genesis"), Ok(1_000_000));
}

#[test]
fn transfer_fails_for_missing_accounts_and_short_balances() {
    let mut store = genesis_store(Some("acct_op"));
    let x = store.ensure_account("node_x", "gep-lite-v1").unwrap();
    let y = store.ensure_account("node_y", "gep-lite-v1").unwrap();
    assert_eq!(
        store.transfer("acct_nobody", &x.account_id, 1, None),
        Err(MeshError::AccountNotFound)
    );
    assert_eq!(
        store.transfer(&x.account_id, "acct_nobody", 1, None),
        Err(MeshError::AccountNotFound)
    );
    assert_eq!(
        store.transfer(&x.account_id, &y.account_id, 1, None),
        Err(MeshError::InsufficientBalance)
    );
    store.transfer("acct_genesis", &x.account_id, 10, Some("acct_op".to_string())).unwrap();
    assert_eq!(
        store.transfer(&x.account_id, &y.account_id, 11, None),
        Err(MeshError::InsufficientBalance)
    );
    assert_eq!(store.transfer(&x.account_id, &y.account_id, 10, None), Ok(()));
    assert_eq!(store.get_balance("node_x"), Ok(0));
    assert_eq!(store.get_balance("node_y"), Ok(10));
}

#[test]
fn a_transfer_to_oneself_changes_no_balance() {
    let mut store = genesis_store(Some("acct_op"));
    let x = store.ensure_account("node_x", "gep-lite-v1").unwrap();
    store.transfer("acct_genesis", &x.account_id, 10, Some("acct_op".to_string())).unwrap();
    assert_eq!(store.transfer(&x.account_id, &x.account_id, 4, None), Ok(()));
    assert_eq!(store.get_balance("node_x"), Ok(10));
    assert_eq!(circulating(&store), 1_000_000);
}

#[test]
fn a_transfer_that_would_overflow_is_refused() {
    let mut store = Store::open_at(
        "./data".to_string(),
        "node_g".to_string(),
        true,
        Some("acct_op".to_string()),
        i64::MAX,
        &stamp(1),
    );
    let rich = Account {
        account_id: "acct_rich".to_string(),
        node_id: "node_rich".to_string(),
        algorithm: "gep-lite-v1".to_string(),
        seed_hash: String::new(),
        created_at: String::new(),
        imported_at: None,
        balance: i64::MAX - 1,
    };
    store.import_account("node_rich", &rich).unwrap();
    assert_eq!(
        store.transfer("acct_genesis", "acct_rich", 2, Some("acct_op".to_string())),
        Err(MeshError::BalanceOverflow)
    );
    assert_eq!(
        store.transfer("acct_genesis", "acct_rich", 1, Some("acct_op".to_string())),
        Ok(())
    );
}

#[test]
fn a_refused_transfer_on_a_plain_node_mints_nothing() {
    let mut store = plain_store();
    let a = store.ensure_account("node_x", "gep-lite-v1").unwrap();
    let b = store.ensure_account("node_y", "gep-lite-v1").unwrap();
    assert_eq!(store.transfer(&a.account_id, &b.account_id, 5, None), Err(MeshError::InsufficientBalance));
    assert_eq!(store.transfer(&a.account_id, "acct_genesis", 1, None), Err(MeshError::AccountNotFound));
    assert_eq!(store.get_account_id_by_node("node_genesis"), Ok(None));
    assert_eq!(store.get_balance("node_genesis"), Err(MeshError::AccountNotFound));
    assert_eq!(store.list_accounts().unwrap().len(), 2);
    assert_eq!(store.list_ledger().unwrap().len(), 0);
    assert_eq!(minted(&store), 0);
    assert_eq!(circulating(&store), 0);
}

#[test]
fn a_transfer_on_a_plain_node_moves_money_and_mints_none() {
    let mut store = plain_store();
    let funded = Account {
        account_id: "acct_funded".to_string(),
        node_id: "node_x".to_string(),
        algorithm: "gep-lite-v1".to_string(),
        seed_hash: String::new(),
        created_at: String::new(),
        imported_at: None,
        balance: 40,
    };
    store.import_account("node_x", &funded).unwrap();
    let b = store.ensure_account("node_y", "gep-lite-v1").unwrap();
    assert_eq!(store.transfer("acct_funded", &b.account_id, 15, None), Ok(()));
    assert_eq!(store.get_balance("node_x"), Ok(25));
    assert_eq!(store.get_balance("node_y"), Ok(15));
    assert_eq!(store.get_account_id_by_node("node_genesis"), Ok(None));
    let ledger = store.list_ledger().unwrap();
    assert_eq!(ledger.len(), 1);
    assert_eq!(ledger[0].entry_type, "transfer");
    assert_eq!(minted(&store), 0);
    assert_eq!(circulating(&store), 40);
    assert_chained(&ledger);
}

#[test]
fn every_hash_of_the_ledger_is_sixty_four_lower_case_hex_digits() {
    let mut store = genesis_store(Some("acct_op"));
    let p = store.ensure_account("node_p", "gep-lite-v1").unwrap();
    store.transfer("acct_genesis", &p.account_id, 100, Some("acct_op".to_string())).unwrap();
    store.lock_escrow("task_1", &p.account_id, 30, "CLAW").unwrap();
    store.release_escrow("task_1", &p.account_id).unwrap();
    let ledger = store.list_ledger().unwrap();
    assert_eq!(ledger.len(), 4);
    for entry in &ledger {
        assert_eq!(entry.hash.len(), 64);
        assert!(entry.hash.chars().all(|c| c.is_ascii_digit() || ('a'..='f').contains(&c)));
    }
}

#[test]
fn ensure_account_is_idempotent() {
    let mut store = plain_store();
    let first = store.ensure_account("node_a", "gep-lite-v1").unwrap();
    let second = store.ensure_account("node_a", "other").unwrap();
    assert_eq!(first.account_id, second.account_id);
    assert_eq!(second.algorithm, "gep-lite-v1");
    assert_eq!(first.balance, 0);
    assert_eq!(first.node_id, "node_a");
    assert_eq!(first.imported_at, None);
    assert!(first.account_id.starts_with("acct_"));
    assert_eq!(first.account_id.len(), 21);
    assert_eq!(first.seed_hash, sha256_hex(&format!("node_a:{}", first.account_id)));
    assert_eq!(store.list_accounts().unwrap().len(), 1);
    assert_eq!(
        store.list_account_index().unwrap(),
        vec![("node_a".to_string(), first.account_id.clone())]
    );
}

#[test]
fn ensure_account_with_refuses_an_identifier_that_is_taken() {
    let mut store = plain_store();
    let a = store.ensure_account_with("node_a", "gep-lite-v1", "acct_1".to_string(), &stamp(2)).unwrap();
    assert_eq!(a.account_id, "acct_1");
    assert_eq!(a.created_at, stamp(2).iso);
    assert_eq!(
        store.ensure_account_with("node_b", "gep-lite-v1", "acct_1".to_string(), &stamp(3)).err(),
        Some(MeshError::StoreConflict)
    );
    assert_eq!(store.get_account_id_by_node("node_b"), Ok(None));
}

#[test]
fn an_exported_account_keeps_its_identifier_when_imported() {
    let mut source = plain_store();
    let exported = source.export_account("node_a").unwrap();
    let mut target = plain_store();
    let imported = target.import_account("node_b", &exported).unwrap();
    assert_eq!(imported.account_id, exported.account_id);
    assert_eq!(imported.node_id, "node_b");
    assert!(imported.imported_at.is_some());
    assert_eq!(target.get_account_id_by_node("node_b"), Ok(Some(exported.account_id.clone())));
    assert_eq!(target.get_balance("node_b"), Ok(exported.balance));
}

#[test]
fn import_overwrites_the_account_of_the_node() {
    let mut store = plain_store();
    let own = store.ensure_account("node_a", "gep-lite-v1").unwrap();
    let payload = Account {
        account_id: "acct_imported".to_string(),
        node_id: "node_elsewhere".to_string(),
        algorithm: "gep-lite-v1".to_string(),
        seed_hash: "s".to_string(),
        created_at: "c".to_string(),
        imported_at: None,
        balance: 7,
    };
    let imported = store.import_account_at("node_a", &payload, &stamp(9));
    assert_eq!(imported.imported_at, Some(stamp(9).iso));
    assert_eq!(store.get_account_id_by_node("node_a"), Ok(Some("acct_imported".to_string())));
    assert_eq!(store.get_balance("node_a"), Ok(7));
    assert_ne!(own.account_id, imported.account_id);
}

#[test]
fn lock_escrow_of_the_whole_balance_leaves_nothing() {
    let mut store = genesis_store(Some("acct_op"));
    let p = store.ensure_account("node_p", "gep-lite-v1").unwrap();
    store.transfer("acct_genesis", &p.account_id, 100, Some("acct_op".to_string())).unwrap();
    assert_eq!(store.lock_escrow("task_1", &p.account_id, 100, "CLAW"), Ok(()));
    assert_eq!(store.get_balance("node_p"), Ok(0));
    let escrows = store.list_escrows().unwrap();
    assert_eq!(escrows.len(), 1);
    assert_eq!(escrows[0].task_id, "task_1");
    assert_eq!(escrows[0].from_account_id, p.account_id);
    assert_eq!(escrows[0].amount, 100);
    assert_eq!(escrows[0].token, "CLAW");
    let ledger = store.list_ledger().unwrap();
    let last = ledger.last().unwrap();
    assert_eq!(last.entry_type, "escrow_locked");
    assert_eq!(last.from, Some(p.account_id.clone()));
    assert_eq!(last.to, None);
    assert_eq!(last.meta, "{\"taskId\":\"task_1\",\"token\":\"CLAW\"}");
    assert_chained(&ledger);
    assert_eq!(circulating(&store), 1_000_000);
}

#[test]
fn lock_escrow_fails_as_told() {
    let mut store = genesis_store(Some("acct_op"));
    let p = store.ensure_account("node_p", "gep-lite-v1").unwrap();
    assert_eq!(store.lock_escrow("t", &p.account_id, 0, "CLAW"), Err(MeshError::InvalidEscrowAmount));
    assert_eq!(store.lock_escrow("t", &p.account_id, -1, "CLAW"), Err(MeshError::InvalidEscrowAmount));
    assert_eq!(store.lock_escrow("t", "acct_nobody", 1, "CLAW"), Err(MeshError::AccountNotFound));
    assert_eq!(store.lock_escrow("t", &p.account_id, 1, "CLAW"), Err(MeshError::InsufficientBalance));
    assert_eq!(store.list_escrows().unwrap().len(), 0);
}

#[test]
fn a_task_gets_no_second_escrow() {
    let mut store = genesis_store(Some("acct_op"));
    let p = store.ensure_account("node_p", "gep-lite-v1").unwrap();
    store.transfer("acct_genesis", &p.account_id, 100, Some("acct_op".to_string())).unwrap();
    assert_eq!(store.lock_escrow("task_1", &p.account_id, 60, "CLAW"), Ok(()));
    let entries = store.list_ledger().unwrap().len();
    assert_eq!(store.lock_escrow("task_1", &p.account_id, 10, "CLAW"), Err(MeshError::EscrowExists));
    assert_eq!(store.lock_escrow("task_1", "acct_nobody", 10, "CLAW"), Err(MeshError::EscrowExists));
    assert_eq!(store.lock_escrow("task_1", &p.account_id, 0, "CLAW"), Err(MeshError::InvalidEscrowAmount));
    assert_eq!(store.get_balance("node_p"), Ok(40));
    let escrows = store.list_escrows().unwrap();
    assert_eq!(escrows.len(), 1);
    assert_eq!(escrows[0].amount, 60);
    assert_eq!(store.list_ledger().unwrap().len(), entries);
    assert_eq!(circulating(&store), 1_000_000);
    assert_eq!(store.release_escrow("task_1", &p.account_id), Ok(60));
    assert_eq!(store.lock_escrow("task_1", &p.account_id, 10, "CLAW"), Ok(()));
    assert_eq!(circulating(&store), 1_000_000);
}

#[test]
fn release_escrow_pays_the_winner_and_removes_the_row() {
    let mut store = genesis_store(Some("acct_op"));
    let p = store.ensure_account("node_p", "gep-lite-v1").unwrap();
    let w = store.ensure_account("node_w", "gep-lite-v1").unwrap();
    store.transfer("acct_genesis", &p.account_id, 100, Some("acct_op".to_string())).unwrap();
    store.lock_escrow("task_1", &p.account_id, 60, "CLAW").unwrap();
    assert_eq!(store.release_escrow("task_1", "acct_nobody"), Err(MeshError::AccountNotFound));
    assert_eq!(store.list_escrows().unwrap().len(), 1);
    assert_eq!(store.release_escrow("task_1", &w.account_id), Ok(60));
    assert_eq!(store.get_balance("node_w"), Ok(60));
    assert_eq!(store.get_balance("node_p"), Ok(40));
    assert_eq!(store.list_escrows().unwrap().len(), 0);
    assert_eq!(store.release_escrow("task_1", &w.account_id), Ok(0));
    assert_eq!(store.get_balance("node_w"), Ok(60));
    let ledger = store.list_ledger().unwrap();
    let last = ledger.last().unwrap();
    assert_eq!(last.entry_type, "escrow_released");
    assert_eq!(last.from, None);
    assert_eq!(last.to, Some(w.account_id.clone()));
    assert_eq!(last.amount, 60);
    assert_chained(&ledger);
}

#[test]
fn the_supply_is_conserved_through_a_run_of_operations() {
    let mut store = genesis_store(Some("acct_op"));
    let a = store.ensure_account("node_a", "gep-lite-v1").unwrap();
    let b = store.ensure_account("node_b", "gep-lite-v1").unwrap();
    assert_eq!(circulating(&store), minted(&store));
    store.transfer("acct_genesis", &a.account_id, 1_000, Some("acct_op".to_string())).unwrap();
    assert_eq!(circulating(&store), minted(&store));
    store.transfer(&a.account_id, &b.account_id, 250, None).unwrap();
    assert_eq!(circulating(&store), minted(&store));
    store.lock_escrow("t1", &a.account_id, 300, "CLAW").unwrap();
    assert_eq!(circulating(&store), minted(&store));
    let _ = store.transfer(&a.account_id, &b.account_id, 10_000, None);
    assert_eq!(circulating(&store), minted(&store));
    store.lock_escrow("t2", &b.account_id, 50, "CLAW").unwrap();
    store.release_escrow("t1", &b.account_id).unwrap();
    assert_eq!(circulating(&store), minted(&store));
    store.store_capsule("{\"type\":\"note\"}").unwrap();
    assert_eq!(circulating(&store), 1_000_000);
    assert_eq!(minted(&store), 1_000_000);
    assert_eq!(store.get_balance("node_a"), Ok(450));
    assert_eq!(store.get_balance("node_b"), Ok(500));
    assert_chained(&store.list_ledger().unwrap());
}

#[test]
fn store_capsule_is_idempotent() {
    let mut store = plain_store();
    let capsule = "{\"type\":\"note\",\"tags\":[\"X\",\"y\"],\"content\":\"hello world hello\"}";
    let first = store.store_capsule(capsule).unwrap();
    let second = store.store_capsule(capsule).unwrap();
    assert_eq!(first, second);
    assert_eq!(store.get_count(), 1);
    let canonical = "{\"content\":\"hello world hello\",\"tags\":[\"X\",\"y\"],\"type\":\"note\"}";
    assert_eq!(first, sha256_hex(canonical));
    assert_eq!(store.get_capsule(&first), Ok(Some(canonical.to_string())));
    for word in ["x", "y", "hello", "world"] {
        let filter = CapsuleFilter { capsule_type: None, tags: vec![], query: Some(word.to_string()) };
        let found = store.query_capsules(filter).unwrap();
        assert_eq!(found.len(), 1);
        assert_eq!(found[0].asset_id, first);
    }
}

#[test]
fn store_capsule_refuses_what_is_no_document() {
    let mut store = plain_store();
    assert_eq!(store.store_capsule("{not json"), Err(MeshError::InvalidCapsule));
    assert_eq!(store.get_count(), 0);
}

#[test]
fn the_same_document_in_another_spelling_has_the_same_address() {
    let mut store = plain_store();
    let a = store.store_capsule("{\"a\":1,\"b\":[1,2]}").unwrap();
    let b = store.store_capsule("{ \"b\" : [1, 2], \"a\" : 1 }").unwrap();
    assert_eq!(a, b);
    assert_eq!(store.get_count(), 1);
}

#[test]
fn an_empty_filter_returns_every_capsule() {
    let mut store = plain_store();
    let a = store.store_capsule("{\"type\":\"note\",\"tags\":[\"x\"],\"content\":\"one\"}").unwrap();
    let b = store.store_capsule("{\"type\":\"fact\",\"tags\":[\"y\"],\"content\":\"two\"}").unwrap();
    let c = store.store_capsule("[1,2,3]").unwrap();
    let all = store.query_capsules(CapsuleFilter { capsule_type: None, tags: vec![], query: None }).unwrap();
    let ids: Vec<String> = all.iter().map(|s| s.asset_id.clone()).collect();
    assert_eq!(ids, vec![a, b, c]);
}

#[test]
fn queries_filter_by_type_tags_and_words() {
    let mut store = plain_store();
    let a = store.store_capsule("{\"type\":\"note\",\"tags\":[\"Rust\",\"x\"],\"content\":\"alpha beta\"}").unwrap();
    let b = store.store_capsule("{\"type\":\"fact\",\"tags\":[\"rust\"],\"content\":\"beta gamma\"}").unwrap();
    let _c = store.store_capsule("{\"type\":\"note\",\"content\":{\"k\":\"beta\"}}").unwrap();

    let by_tag = store
        .query_capsules(CapsuleFilter { capsule_type: None, tags: vec!["RUST".to_string()], query: None })
        .unwrap();
    let ids: Vec<String> = by_tag.iter().map(|s| s.asset_id.clone()).collect();
    assert_eq!(ids, vec![a.clone(), b.clone()]);

    let by_type = store
        .query_capsules(CapsuleFilter { capsule_type: Some("note".to_string()), tags: vec![], query: None })
        .unwrap();
    assert_eq!(by_type.len(), 2);

    let both = store
        .query_capsules(CapsuleFilter {
            capsule_type: Some("fact".to_string()),
            tags: vec!["rust".to_string()],
            query: Some("beta".to_string()),
        })
        .unwrap();
    assert_eq!(both.len(), 1);
    assert_eq!(both[0].asset_id, b);

    let words = store
        .query_capsules(CapsuleFilter { capsule_type: None, tags: vec![], query: Some("Beta k".to_string()) })
        .unwrap();
    assert_eq!(words.len(), 1);

    let none = store
        .query_capsules(CapsuleFilter { capsule_type: None, tags: vec![], query: Some("delta".to_string()) })
        .unwrap();
    assert_eq!(none.len(), 0);

    let two_words = store
        .query_capsules(CapsuleFilter { capsule_type: None, tags: vec![], query: Some("alpha beta".to_string()) })
        .unwrap();
    assert_eq!(two_words.len(), 1);
    assert_eq!(two_words[0].asset_id, a);
}

#[test]
fn the_snapshot_strips_the_content_of_capsules() {
    let mut store = genesis_store(Some("acct_op"));
    let x = store.ensure_account("node_x", "gep-lite-v1").unwrap();
    store.transfer("acct_genesis", &x.account_id, 5, Some("acct_op".to_string())).unwrap();
    let id = store.store_capsule("{\"type\":\"note\",\"content\":\"secret\"}").unwrap();
    let other = store.store_capsule("\"just a string\"").unwrap();
    let snapshot = store.get_snapshot().unwrap();
    assert_eq!(snapshot.capsules.len(), 2);
    assert_eq!(snapshot.capsules[0].asset_id, id);
    assert_eq!(snapshot.capsules[0].capsule, "{\"content\":null,\"type\":\"note\"}");
    assert_eq!(snapshot.capsules[1].asset_id, other);
    assert_eq!(snapshot.capsules[1].capsule, "\"just a string\"");
    assert_eq!(snapshot.accounts.len(), 2);
    assert_eq!(snapshot.account_index.len(), 2);
    assert_eq!(snapshot.ledger.len(), 2);
    assert_eq!(snapshot.ledger[0].index, 0);
    assert_eq!(snapshot.ledger[1].index, 1);
    assert_eq!(store.get_capsule(&id), Ok(Some("{\"content\":\"secret\",\"type\":\"note\"}".to_string())));
    assert_eq!(store.get_capsule("nothing"), Ok(None));
}

#[test]
fn a_store_is_restored_from_its_rows() {
    let mut store = genesis_store(Some("acct_op"));
    let p = store.ensure_account("node_p", "gep-lite-v1").unwrap();
    store.transfer("acct_genesis", &p.account_id, 100, Some("acct_op".to_string())).unwrap();
    store.lock_escrow("task_1", &p.account_id, 30, "CLAW").unwrap();
    let id = store.store_capsule("{\"tags\":[\"x\"],\"content\":\"hello\"}").unwrap();
    let capsule = store.get_capsule(&id).unwrap().unwrap();

    let restored = Store::restore(
        "./data".to_string(),
        "node_g".to_string(),
        true,
        Some("acct_op".to_string()),
        1_000_000,
        store.list_accounts().unwrap(),
        store.list_account_index().unwrap(),
        store.list_ledger().unwrap(),
        vec![(id.clone(), capsule.clone())],
        vec![("x".to_string(), vec![id.clone(), id.clone()]), ("hello".to_string(), vec![id.clone()])],
        store.list_escrows().unwrap(),
        &stamp(50),
    )
    .unwrap();
    assert_eq!(restored.get_balance("node_p"), Ok(70));
    assert_eq!(restored.get_balance("node_genesis"), Ok(999_900));
    assert_eq!(restored.list_ledger().unwrap().len(), 3);
    assert_eq!(restored.list_escrows().unwrap().len(), 1);
    assert_eq!(restored.get_capsule(&id), Ok(Some(capsule)));
    let found = restored
        .query_capsules(CapsuleFilter { capsule_type: None, tags: vec!["x".to_string()], query: None })
        .unwrap();
    assert_eq!(found.len(), 1);
    assert_eq!(circulating(&restored), minted(&restored));
}

#[test]
fn a_broken_ledger_is_not_restored() {
    let mut store = genesis_store(Some("acct_op"));
    let p = store.ensure_account("node_p", "gep-lite-v1").unwrap();
    store.transfer("acct_genesis", &p.account_id, 100, Some("acct_op".to_string())).unwrap();
    let mut ledger = store.list_ledger().unwrap();
    ledger[1].amount = 1_000;
    let r = Store::restore(
        "./data".to_string(),
        "node_g".to_string(),
        true,
        None,
        1_000_000,
        store.list_accounts().unwrap(),
        store.list_account_index().unwrap(),
        ledger,
        vec![],
        vec![],
        Vec::<Escrow>::new(),
        &stamp(50),
    );
    assert_eq!(r.err(), Some(MeshError::StoreConflict));
}

#[test]
fn an_index_that_names_a_missing_account_is_not_restored() {
    let mut store = genesis_store(Some("acct_op"));
    store.ensure_account("node_p", "gep-lite-v1").unwrap();
    let mut index = store.list_account_index().unwrap();
    index.push(("node_lost".to_string(), "acct_lost".to_string()));
    let r = Store::restore(
        "./data".to_string(),
        "node_g".to_string(),
        true,
        None,
        1_000_000,
        store.list_accounts().unwrap(),
        index,
        store.list_ledger().unwrap(),
        vec![],
        vec![],
        Vec::<Escrow>::new(),
        &stamp(50),
    );
    assert_eq!(r.err(), Some(MeshError::StoreConflict));
}
