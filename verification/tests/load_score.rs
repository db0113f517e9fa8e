use cloud_p2p::load::{available_share, load_score, outranks, task_pressure, ServerMetrics, MAX_LOAD};

#[test]
fn idle_server_has_load_zero() {
    assert_eq!(load_score(0, 0, 10_000), 0);
}

#[test]
fn moderately_loaded_server_scores_43() {
    // 40 % CPU, 5 tasks, 60 % of memory available: 0.5*40 + 0.3*50 + 0.2*40 = 43.
    assert_eq!(load_score(4_000, 5, 6_000), 43_000);
}

#[test]
fn heavily_loaded_server_scores_86() {
    assert_eq!(load_score(8_000, 10, 2_000), 86_000);
}

#[test]
fn lightly_loaded_server_scores_20() {
    assert_eq!(load_score(2_000, 2, 8_000), 20_000);
}

#[test]
fn task_pressure_saturates_at_ten_tasks() {
    assert_eq!(task_pressure(0), 0);
    assert_eq!(task_pressure(9), 9_000);
    assert_eq!(task_pressure(10), 10_000);
    assert_eq!(task_pressure(u64::MAX), 10_000);
    assert_eq!(load_score(0, 10, 10_000), 30_000);
    assert_eq!(load_score(0, 25, 10_000), 30_000);
}

#[test]
fn inputs_beyond_full_scale_are_cut_off() {
    assert_eq!(load_score(20_000, 0, 20_000), 50_000);
    assert_eq!(load_score(u32::MAX, u64::MAX, 0), MAX_LOAD);
    assert_eq!(load_score(10_000, 10, 0), 100_000);
}

#[test]
fn available_share_of_memory() {
    assert_eq!(available_share(0, 0), 10_000);
    assert_eq!(available_share(0, 77), 10_000);
    assert_eq!(available_share(1_000, 250), 2_500);
    assert_eq!(available_share(3, 1), 3_333);
    assert_eq!(available_share(8, 8), 10_000);
    assert_eq!(available_share(8, 9), 10_000);
    assert_eq!(available_share(u64::MAX, u64::MAX), 10_000);
    assert_eq!(available_share(u64::MAX, 0), 0);
}

#[test]
fn lower_load_outranks_and_lower_id_breaks_ties() {
    assert!(outranks(10, 3, 20, 1));
    assert!(!outranks(20, 1, 10, 3));
    assert!(outranks(10, 1, 10, 2));
    assert!(!outranks(10, 2, 10, 1));
    assert!(!outranks(10, 2, 10, 2));
}

#[test]
fn task_counters_follow_starts_and_ends() {
    let mut metrics = ServerMetrics::new();
    assert_eq!(metrics.get_active_tasks(), 0);
    metrics.task_started();
    metrics.task_started();
    assert_eq!(metrics.get_active_tasks(), 2);
    assert_eq!(metrics.get_total_tasks(), 2);
    metrics.task_finished();
    assert_eq!(metrics.get_active_tasks(), 1);
    assert_eq!(metrics.get_total_tasks(), 2);
}

#[test]
fn active_counter_wraps_below_zero() {
    let mut metrics = ServerMetrics::new();
    metrics.task_finished();
    assert_eq!(metrics.get_active_tasks(), u64::MAX);
    metrics.task_started();
    assert_eq!(metrics.get_active_tasks(), 0);
}

#[test]
fn priority_counts_the_active_tasks() {
    let mut metrics = ServerMetrics::new();
    assert_eq!(metrics.calculate_priority(0, 10_000), 0);
    metrics.task_started();
    assert_eq!(metrics.calculate_priority(0, 10_000), 3_000);
    assert_eq!(metrics.get_load(4_000, 6_000), 20_000 + 3_000 + 8_000);
}
