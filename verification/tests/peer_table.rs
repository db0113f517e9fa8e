use cloud_p2p::peers::{Candidate, PeerRecord, PeerTable};

/// The failed peers at `now`, in ascending order of their ids.
fn failed(table: &PeerTable, now: u64, timeout: u64) -> Vec<u32> {
    let mut stale = table.stale_peers(now, timeout);
    stale.sort();
    stale
}

#[test]
fn first_heartbeat_is_recorded() {
    let mut table = PeerTable::new();
    assert_eq!(table.get(2), None);
    assert!(table.record_heartbeat(2, 100, 4_200));
    assert_eq!(table.get(2), Some(PeerRecord { last_seen: 100, load: 4_200 }));
}

#[test]
fn heartbeat_that_is_not_newer_is_ignored() {
    let mut table = PeerTable::new();
    assert!(table.record_heartbeat(2, 100, 4_200));
    assert!(!table.record_heartbeat(2, 100, 9_999));
    assert!(!table.record_heartbeat(2, 99, 1));
    assert_eq!(table.get(2), Some(PeerRecord { last_seen: 100, load: 4_200 }));
    assert!(table.record_heartbeat(2, 101, 7));
    assert_eq!(table.get(2), Some(PeerRecord { last_seen: 101, load: 7 }));
}

#[test]
fn peers_fail_only_after_more_than_the_timeout() {
    let mut table = PeerTable::new();
    table.record_heartbeat(1, 100, 0);
    table.record_heartbeat(2, 95, 0);
    table.record_heartbeat(3, 94, 0);
    assert_eq!(failed(&table, 100, 5), vec![3]);
    assert_eq!(failed(&table, 105, 5), vec![2, 3]);
    assert_eq!(failed(&table, 106, 5), vec![1, 2, 3]);
    assert_eq!(failed(&table, 100, 6), Vec::<u32>::new());
}

#[test]
fn a_peer_seen_in_the_future_has_not_failed() {
    let mut table = PeerTable::new();
    table.record_heartbeat(1, 500, 0);
    assert_eq!(failed(&table, 100, 0), Vec::<u32>::new());
    assert_eq!(failed(&table, 500, 0), Vec::<u32>::new());
    assert_eq!(failed(&table, 501, 0), vec![1]);
}

#[test]
fn removal_forgets_last_seen_and_load_together() {
    let mut table = PeerTable::new();
    table.record_heartbeat(1, 100, 10);
    table.record_heartbeat(2, 100, 20);
    table.remove(1);
    table.remove(7);
    assert_eq!(table.get(1), None);
    assert_eq!(table.get(2), Some(PeerRecord { last_seen: 100, load: 20 }));
    assert!(table.record_heartbeat(1, 1, 30));
    assert_eq!(table.get(1), Some(PeerRecord { last_seen: 1, load: 30 }));
}

#[test]
fn least_loaded_prefers_lower_load_then_lower_id() {
    let mut table = PeerTable::new();
    assert_eq!(table.least_loaded(5, 50), Candidate { id: 5, load: 50 });
    table.record_heartbeat(7, 1, 50);
    assert_eq!(table.least_loaded(5, 50), Candidate { id: 5, load: 50 });
    table.record_heartbeat(3, 1, 50);
    assert_eq!(table.least_loaded(5, 50), Candidate { id: 3, load: 50 });
    table.record_heartbeat(9, 1, 49);
    assert_eq!(table.least_loaded(5, 50), Candidate { id: 9, load: 49 });
    assert_eq!(table.least_loaded(5, 0), Candidate { id: 5, load: 0 });
}
