use cloud_p2p::metrics::{percentile, sorted_latencies, sum_latencies, ClientMetrics, RequestMetric};
use std::time::Duration;

#[test]
fn test_percentile() {
    let data = vec![1, 2, 3, 4, 5, 6, 7, 8, 9, 10];
    assert_eq!(percentile(&data, 50), 5);
    assert_eq!(percentile(&data, 95), 10);
    assert_eq!(percentile(&data, 0), 1);
}

#[test]
fn test_metrics_aggregation() {
    let mut metrics = ClientMetrics::new("TestClient".to_string());

    metrics.record_request(1, Duration::from_millis(100), true, None, Some(1));
    metrics.record_request(2, Duration::from_millis(200), true, None, Some(2));
    metrics.record_request(3, Duration::from_millis(150), false, Some("timeout".to_string()), Some(1));

    let stats = metrics.aggregate();

    assert_eq!(stats.total_requests, 3);
    assert_eq!(stats.successful_requests, 2);
    assert_eq!(stats.failed_requests, 1);
    assert_eq!(stats.latency_min_ms, 100);
    assert_eq!(stats.latency_max_ms, 200);
    assert_eq!(stats.server_distribution.get(&1), Some(&2));
    assert_eq!(stats.server_distribution.get(&2), Some(&1));
}

#[test]
fn percentile_of_odd_and_short_lists() {
    assert_eq!(percentile(&[], 50), 0);
    assert_eq!(percentile(&[7], 0), 7);
    assert_eq!(percentile(&[7], 99), 7);
    assert_eq!(percentile(&[1, 2, 3], 50), 2);
    assert_eq!(percentile(&[1, 2, 3], 76), 3);
    assert_eq!(percentile(&[1, 2, 3], 75), 2);
    assert_eq!(percentile(&[1, 2, 3], 74), 2);
    assert_eq!(percentile(&[1, 2, 3], 25), 1);
    assert_eq!(percentile(&[1, 2, 3], 26), 2);
    assert_eq!(percentile(&[1, 2, 3], 100), 3);
    assert_eq!(percentile(&[1, 2, 3], 250), 3);
    let hundred: Vec<u64> = (0..=100).collect();
    assert_eq!(percentile(&hundred, 99), 99);
    assert_eq!(percentile(&hundred, 95), 95);
}

#[test]
fn latencies_are_sorted_and_summed() {
    assert_eq!(sorted_latencies(&vec![5, 1, 4, 1, 9, 0]), vec![0, 1, 1, 4, 5, 9]);
    assert_eq!(sorted_latencies(&vec![]), Vec::<u64>::new());
    assert_eq!(sum_latencies(&vec![5, 1, 4]), 10);
    assert_eq!(sum_latencies(&vec![u64::MAX, u64::MAX]), 2 * (u64::MAX as u128));
}

#[test]
fn summary_of_an_empty_record_is_all_zero() {
    let metrics = ClientMetrics::new("C1".to_string());
    assert_eq!(metrics.client_name(), "C1");
    assert_eq!(metrics.len(), 0);
    let stats = metrics.aggregate();
    assert_eq!(stats.total_requests, 0);
    assert_eq!(stats.successful_requests, 0);
    assert_eq!(stats.failed_requests, 0);
    assert_eq!((stats.latency_min_ms, stats.latency_max_ms, stats.latency_sum_ms), (0, 0, 0));
    assert_eq!((stats.latency_p50_ms, stats.latency_p95_ms, stats.latency_p99_ms), (0, 0, 0));
    assert!(stats.server_distribution.is_empty());
    assert!(stats.failure_reasons.is_empty());
}

#[test]
fn latency_figures_count_successful_requests_only() {
    let mut metrics = ClientMetrics::new("C1".to_string());
    for (id, latency, success) in [(1u64, 400u64, true), (2, 100, true), (3, 5, false), (4, 300, true), (5, 200, true)] {
        metrics.record(RequestMetric {
            request_id: id,
            start_time: 1_000 + id,
            latency_ms: latency,
            success,
            failure_reason: None,
            assigned_server_id: None,
        });
    }
    assert_eq!(metrics.successful_latencies(), vec![400, 100, 300, 200]);
    let stats = metrics.aggregate();
    assert_eq!(stats.latency_min_ms, 100);
    assert_eq!(stats.latency_max_ms, 400);
    assert_eq!(stats.latency_sum_ms, 1_000);
    assert_eq!(stats.latency_p50_ms, 200);
    assert_eq!(stats.latency_p95_ms, 400);
    assert_eq!(stats.latency_p99_ms, 400);
    assert!(stats.server_distribution.is_empty());
    assert!(stats.failure_reasons.is_empty());
}

#[test]
fn failure_reasons_are_tallied_for_failed_requests() {
    let mut metrics = ClientMetrics::new("C1".to_string());
    let entries = [
        (false, Some("timeout"), Some(1u32)),
        (false, Some("too_small"), Some(2)),
        (true, Some("ignored on success"), Some(2)),
        (false, Some("timeout"), None),
        (false, None, Some(3)),
    ];
    for (i, (success, reason, server)) in entries.iter().enumerate() {
        metrics.record_request(
            i as u64,
            Duration::from_millis(10),
            *success,
            reason.map(|r| r.to_string()),
            *server,
        );
    }
    assert_eq!(
        metrics.failure_reasons(),
        vec![("timeout".to_string(), 2), ("too_small".to_string(), 1)]
    );
    let distribution = metrics.server_distribution();
    assert_eq!(distribution.len(), 3);
    assert_eq!(distribution.get(&1), Some(&1));
    assert_eq!(distribution.get(&2), Some(&2));
    assert_eq!(distribution.get(&3), Some(&1));
    let stats = metrics.aggregate();
    assert_eq!((stats.total_requests, stats.successful_requests, stats.failed_requests), (5, 1, 4));
}

#[test]
fn records_keep_whole_milliseconds() {
    let mut metrics = ClientMetrics::new("C1".to_string());
    metrics.record_request(1, Duration::from_micros(1_999), true, None, None);
    metrics.record_request(2, Duration::from_secs(3), true, None, None);
    assert_eq!(metrics.successful_latencies(), vec![1, 3_000]);
    assert!(metrics.started_at_ms() > 1_600_000_000_000);
}
