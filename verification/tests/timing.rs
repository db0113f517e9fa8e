use cloud_p2p::clock::{current_timestamp, current_timestamp_millis, duration_millis, low_bits};
use cloud_p2p::config::{
    default_image_dir, is_image_extension, ElectionConfig, PeerInfo, PeersConfig, ServerConfig, ServerInfo,
};
use cloud_p2p::random::{initial_election_delay_ms, pick_index, request_delay_ms};
use cloud_p2p::records::{EncryptionRequest, EncryptionResponse, RequestType, StateSnapshot, UserInfo};
use std::time::Duration;

#[test]
fn the_clock_reads_unix_time() {
    let secs = current_timestamp();
    let millis = current_timestamp_millis();
    // Later than 2020-09-13, and the two readings agree to within a few seconds.
    assert!(secs > 1_600_000_000);
    assert!(millis / 1_000 >= secs);
    assert!(millis / 1_000 - secs < 5);
}

#[test]
fn durations_are_kept_in_whole_milliseconds() {
    assert_eq!(duration_millis(&Duration::from_millis(1_234)), 1_234);
    assert_eq!(duration_millis(&Duration::from_nanos(999_999)), 0);
    assert_eq!(duration_millis(&Duration::new(2, 500_000_000)), 2_500);
    assert_eq!(low_bits(7), 7);
    assert_eq!(low_bits(1u128 << 64), 0);
    assert_eq!(low_bits((1u128 << 64) + 5), 5);
    // u64::MAX seconds are more milliseconds than 64 bits hold: the low bits are kept.
    let huge = Duration::new(u64::MAX, 0);
    assert_eq!(duration_millis(&huge), (huge.as_millis() % (1u128 << 64)) as u64);
}

#[test]
fn the_first_election_waits_three_seconds_and_a_jitter() {
    let mut seen = std::collections::HashSet::new();
    for _ in 0..500 {
        let delay = initial_election_delay_ms();
        assert!(3_100 <= delay && delay < 3_500);
        seen.insert(delay);
    }
    assert!(seen.len() > 1);
}

#[test]
fn the_pause_between_requests_stays_within_its_bounds() {
    for _ in 0..500 {
        let delay = request_delay_ms(100, 105);
        assert!(100 <= delay && delay < 105);
    }
    assert_eq!(request_delay_ms(100, 100), 100);
    assert_eq!(request_delay_ms(0, 1), 0);
    assert_eq!(request_delay_ms(u64::MAX, u64::MAX), u64::MAX);
}

#[test]
fn an_index_drawn_by_lot_is_within_the_list() {
    for _ in 0..200 {
        assert!(pick_index(3) < 3);
    }
    assert_eq!(pick_index(1), 0);
}

#[test]
fn addresses_are_resolved_from_the_configuration() {
    let config = ServerConfig {
        server: ServerInfo { id: 1, address: "127.0.0.1:5001".to_string() },
        peers: PeersConfig {
            peers: vec![
                PeerInfo { id: 2, address: "127.0.0.1:5002".to_string() },
                PeerInfo { id: 3, address: "127.0.0.1:5003".to_string() },
                PeerInfo { id: 2, address: "shadowed".to_string() },
            ],
        },
        election: ElectionConfig {
            heartbeat_interval_secs: 1,
            election_timeout_secs: 2,
            failure_timeout_secs: 5,
            monitor_interval_secs: 1,
        },
    };
    assert_eq!(config.resolve_address(1), "127.0.0.1:5001");
    assert_eq!(config.resolve_address(2), "127.0.0.1:5002");
    assert_eq!(config.resolve_address(3), "127.0.0.1:5003");
    assert_eq!(config.resolve_address(4), "");
    assert_eq!(config.peers.address_of(1), "");
    assert_eq!(default_image_dir(), "test_images");
}

#[test]
fn image_files_are_known_by_their_extension() {
    assert!(is_image_extension("jpg"));
    assert!(is_image_extension("jpeg"));
    assert!(is_image_extension("png"));
    assert!(!is_image_extension("JPG"));
    assert!(!is_image_extension("gif"));
    assert!(!is_image_extension(""));
    assert!(!is_image_extension("pngx"));
}

#[test]
fn records_hold_what_they_are_given() {
    let alice = UserInfo {
        user_id: "u1".to_string(),
        username: "alice".to_string(),
        connection_info: "127.0.0.1:7001".to_string(),
        online_since: 1_700_000_000,
    };
    let mut online = std::collections::HashMap::new();
    online.insert(alice.user_id.clone(), alice.clone());
    let snapshot = StateSnapshot { leader_id: Some(1), active_peers: vec![2, 3], discovery_table: online, timestamp: 9 };
    assert_eq!(snapshot.clone(), snapshot);
    assert_eq!(snapshot.discovery_table.get("u1"), Some(&alice));
    let request = EncryptionRequest {
        image_data: vec![1, 2, 3],
        username: "alice".to_string(),
        allowed_users: vec!["alice".to_string()],
        view_count: 5,
    };
    assert_eq!(request.allowed_users.len(), 1);
    assert_eq!(EncryptionResponse { encrypted_image_data: vec![], success: false }.success, false);
    assert_ne!(RequestType::Encryption, RequestType::Discovery);
    assert_eq!(RequestType::Decryption, RequestType::Decryption);
}
