use cloud_p2p::ledger::{Assignment, LedgerOp, RequestKey, TaskLedger};

fn key(name: &str, id: u64) -> RequestKey {
    RequestKey::new(name.to_string(), id)
}

#[test]
fn add_add_remove_add_leaves_the_entry() {
    let mut ledger = TaskLedger::new();
    ledger.add(key("C1", 42), 2, 10);
    ledger.add(key("C1", 42), 2, 11);
    ledger.remove(&key("C1", 42));
    ledger.add(key("C1", 42), 2, 12);
    let found = ledger.lookup(&key("C1", 42)).expect("entry present");
    assert_eq!(found.server_id, 2);
    assert_eq!(found.timestamp, 12);
}

#[test]
fn replayed_operations_end_as_the_last_one() {
    let mut replayed = TaskLedger::new();
    replayed.apply(LedgerOp::Add { key: key("C1", 7), assignment: Assignment { server_id: 3, timestamp: 1 } });
    replayed.apply(LedgerOp::Remove { key: key("C1", 7) });
    replayed.apply(LedgerOp::Add { key: key("C1", 7), assignment: Assignment { server_id: 1, timestamp: 2 } });
    replayed.apply(LedgerOp::Add { key: key("C1", 7), assignment: Assignment { server_id: 1, timestamp: 2 } });
    replayed.apply(LedgerOp::Remove { key: key("C1", 7) });
    replayed.apply(LedgerOp::Remove { key: key("C1", 7) });
    let mut once = TaskLedger::new();
    once.apply(LedgerOp::Remove { key: key("C1", 7) });
    assert_eq!(replayed.lookup(&key("C1", 7)), once.lookup(&key("C1", 7)));
    assert_eq!(replayed.lookup(&key("C1", 7)), None);
}

#[test]
fn add_overwrites_the_assignee() {
    let mut ledger = TaskLedger::new();
    ledger.add(key("C1", 1), 2, 100);
    ledger.add(key("C1", 1), 3, 200);
    assert_eq!(ledger.lookup(&key("C1", 1)), Some(Assignment { server_id: 3, timestamp: 200 }));
}

#[test]
fn lookup_of_an_unknown_key_is_absent() {
    let mut ledger = TaskLedger::new();
    assert_eq!(ledger.lookup(&key("C1", 1)), None);
    ledger.add(key("C1", 1), 2, 100);
    assert_eq!(ledger.lookup(&key("C1", 2)), None);
    assert_eq!(ledger.lookup(&key("C2", 1)), None);
    assert!(ledger.contains(&key("C1", 1)));
    assert!(!ledger.contains(&key("C2", 1)));
}

#[test]
fn remove_of_an_absent_key_changes_nothing() {
    let mut ledger = TaskLedger::new();
    ledger.add(key("C1", 1), 2, 100);
    ledger.remove(&key("C1", 9));
    ledger.remove(&key("C1", 9));
    assert_eq!(ledger.lookup(&key("C1", 1)), Some(Assignment { server_id: 2, timestamp: 100 }));
}

#[test]
fn request_ids_are_per_client() {
    let mut ledger = TaskLedger::new();
    ledger.add(key("C1", 1), 2, 100);
    ledger.add(key("C2", 1), 3, 101);
    ledger.remove(&key("C1", 1));
    assert_eq!(ledger.lookup(&key("C1", 1)), None);
    assert_eq!(ledger.lookup(&key("C2", 1)), Some(Assignment { server_id: 3, timestamp: 101 }));
}

#[test]
fn sweep_removes_all_entries_of_the_failed_server_and_no_other() {
    let mut ledger = TaskLedger::new();
    ledger.add(key("C1", 1), 3, 100);
    ledger.add(key("C1", 2), 2, 101);
    ledger.add(key("C2", 1), 3, 102);
    ledger.add(key("C3", 5), 1, 103);
    ledger.sweep(3);
    assert_eq!(ledger.lookup(&key("C1", 1)), None);
    assert_eq!(ledger.lookup(&key("C2", 1)), None);
    assert_eq!(ledger.lookup(&key("C1", 2)), Some(Assignment { server_id: 2, timestamp: 101 }));
    assert_eq!(ledger.lookup(&key("C3", 5)), Some(Assignment { server_id: 1, timestamp: 103 }));
    ledger.sweep(3);
    assert_eq!(ledger.lookup(&key("C1", 2)), Some(Assignment { server_id: 2, timestamp: 101 }));
}

#[test]
fn keys_compare_by_name_and_id() {
    assert!(key("C1", 1).same_as(&key("C1", 1)));
    assert!(!key("C1", 1).same_as(&key("C1", 2)));
    assert!(!key("C1", 1).same_as(&key("C2", 1)));
    assert_eq!(key("C1", 1).clone(), key("C1", 1));
}
