use cloud_p2p::client::{
    first_assignment, first_status, judge_response, ClientAction, ClientCore, ClientMiddleware, Failure,
    RequestCoordinator, TaskResult, MAX_CONSECUTIVE_FAILURES, MAX_RESUBMISSION_ATTEMPTS, MAX_SAME_SERVER_POLLS,
};
use cloud_p2p::config::{ClientConfig, ClientInfo, RequestConfig};
use cloud_p2p::message::Message;
use cloud_p2p::metrics::ClientMetrics;
use std::time::Duration;

fn assignment(server: u32, address: &str) -> Option<Message> {
    Some(Message::TaskAssignmentResponse {
        request_id: 7,
        assigned_server_id: server,
        assigned_server_address: address.to_string(),
    })
}

fn status(server: u32, address: &str) -> Option<Message> {
    Some(Message::TaskStatusResponse {
        request_id: 7,
        assigned_server_id: server,
        assigned_server_address: address.to_string(),
    })
}

fn ask_for_assignment(after_secs: u64) -> ClientAction {
    ClientAction::RequestAssignment {
        after_secs,
        message: Message::TaskAssignmentRequest { client_name: "C1".to_string(), request_id: 7 },
    }
}

fn ask_for_status(after_secs: u64) -> ClientAction {
    ClientAction::QueryStatus {
        after_secs,
        message: Message::TaskStatusQuery { client_name: "C1".to_string(), request_id: 7 },
    }
}

fn send_task(address: &str, assigned_by: u32) -> ClientAction {
    ClientAction::SendTask {
        address: address.to_string(),
        message: Message::TaskRequest {
            client_name: "C1".to_string(),
            request_id: 7,
            secret_image_data: vec![0xAB; 4],
            assigned_by_leader: assigned_by,
        },
    }
}

/// A request that is being executed on server 3.
fn executing() -> RequestCoordinator {
    let (mut request, first) = RequestCoordinator::submit("C1".to_string(), 7, vec![0xAB; 4]);
    assert_eq!(first, ask_for_assignment(0));
    let action = request.on_assignment_round(&vec![assignment(3, "s3"), None, None]);
    assert_eq!(action, send_task("s3", 1));
    request
}

/// A request whose assignee, server 3, has just failed.
fn polling() -> RequestCoordinator {
    let mut request = executing();
    assert_eq!(request.on_task_result(TaskResult::Broken), ask_for_status(0));
    request
}

#[test]
fn a_round_without_an_assignment_is_repeated_after_two_seconds() {
    let (mut request, _) = RequestCoordinator::submit("C1".to_string(), 7, vec![0xAB; 4]);
    for _ in 0..50 {
        assert_eq!(request.on_assignment_round(&vec![None, None, None]), ask_for_assignment(2));
        assert!(!request.is_finished());
    }
    assert_eq!(request.on_assignment_round(&vec![]), ask_for_assignment(2));
    assert_eq!(request.on_assignment_round(&vec![None, assignment(2, "s2")]), send_task("s2", 2));
}

#[test]
fn the_first_assignment_in_address_order_is_taken() {
    let answers = vec![Some(Message::LeaderQuery), None, assignment(1, "s1"), assignment(2, "s2")];
    let offer = first_assignment(&answers).expect("an assignment");
    assert_eq!(offer.server_id, 1);
    assert_eq!(offer.address, "s1");
    assert_eq!(offer.responder_id, 3);
    assert!(first_assignment(&vec![None, status(1, "s1")]).is_none());
    assert!(first_status(&vec![None, assignment(1, "s1")]).is_none());
    let found = first_status(&vec![None, status(2, "s2"), status(3, "s3")]).expect("a status");
    assert_eq!((found.server_id, found.address.as_str(), found.responder_id), (2, "s2", 2));
}

#[test]
fn a_result_that_checks_out_ends_the_request_with_an_acknowledgement() {
    let mut request = executing();
    assert!(request.is_executing());
    let action = request.on_task_result(TaskResult::Accepted { encoded: vec![1, 2, 3] });
    assert_eq!(
        action,
        ClientAction::Finish {
            ack: Message::TaskAck { client_name: "C1".to_string(), request_id: 7 },
            encoded: vec![1, 2, 3],
        }
    );
    assert!(request.is_finished());
    assert!(request.has_succeeded());
    assert_eq!(request.assignee(), Some(3));
    assert_eq!(request.resubmissions(), 0);
}

#[test]
fn a_refusal_by_the_encoder_ends_the_request_without_retry() {
    let mut request = executing();
    let action = request.on_task_result(TaskResult::Rejected { reason: "too_small".to_string() });
    assert_eq!(action, ClientAction::Fail { failure: Failure::Rejected("too_small".to_string()) });
    assert!(request.is_finished());
    assert!(!request.has_succeeded());
    assert_eq!(request.resubmissions(), 0);
    // Nothing moves the request any more.
    assert_eq!(request.on_status_round(&vec![status(1, "s1")]), ClientAction::Nothing);
    assert_eq!(request.on_assignment_round(&vec![assignment(1, "s1")]), ClientAction::Nothing);
    assert_eq!(request.on_task_result(TaskResult::Broken), ClientAction::Nothing);
    assert_eq!(Failure::Rejected("too_small".to_string()).classifier(), "too_small");
}

#[test]
fn a_broken_connection_starts_polling_at_once() {
    let mut request = executing();
    assert_eq!(request.on_task_result(TaskResult::Broken), ask_for_status(0));
    assert!(!request.is_executing());
    assert!(!request.is_finished());
}

#[test]
fn a_reassignment_to_another_address_is_adopted_at_once() {
    let mut request = polling();
    let action = request.on_status_round(&vec![None, status(2, "s2"), None]);
    assert_eq!(action, send_task("s2", 2));
    assert_eq!(request.assignee(), Some(2));
    assert!(request.is_executing());
}

#[test]
fn the_failed_server_is_tried_again_after_ten_polls_that_name_it() {
    let mut request = polling();
    assert_eq!(MAX_SAME_SERVER_POLLS, 10);
    for _ in 0..9 {
        assert_eq!(request.on_status_round(&vec![status(3, "s3")]), ask_for_status(2));
    }
    assert_eq!(request.on_status_round(&vec![status(3, "s3")]), send_task("s3", 3));
    assert_eq!(request.resubmissions(), 0);
}

#[test]
fn silence_between_answers_does_not_reset_the_count_of_same_answers() {
    let mut request = polling();
    for _ in 0..9 {
        assert_eq!(request.on_status_round(&vec![status(3, "s3")]), ask_for_status(2));
        assert_eq!(request.on_status_round(&vec![None]), ask_for_status(2));
    }
    assert_eq!(request.on_status_round(&vec![status(3, "s3")]), send_task("s3", 3));
}

#[test]
fn an_answer_resets_the_count_of_silent_rounds() {
    let mut request = polling();
    for _ in 0..9 {
        assert_eq!(request.on_status_round(&vec![None, None, None]), ask_for_status(2));
    }
    assert_eq!(request.on_status_round(&vec![status(3, "s3")]), ask_for_status(2));
    for _ in 0..9 {
        assert_eq!(request.on_status_round(&vec![None, None, None]), ask_for_status(2));
    }
    assert_eq!(request.on_status_round(&vec![None, None, None]), ask_for_assignment(0));
    assert_eq!(request.resubmissions(), 1);
}

#[test]
fn ten_silent_rounds_mean_the_task_is_lost_and_resubmitted() {
    let mut request = polling();
    assert_eq!(MAX_CONSECUTIVE_FAILURES, 10);
    for _ in 0..9 {
        assert_eq!(request.on_status_round(&vec![None, None, None]), ask_for_status(2));
    }
    assert_eq!(request.on_status_round(&vec![None, None, None]), ask_for_assignment(0));
    assert_eq!(request.resubmissions(), 1);
    // The resubmitted request is assigned to a live server and completes.
    assert_eq!(request.on_assignment_round(&vec![assignment(2, "s2"), None, None]), send_task("s2", 1));
    let action = request.on_task_result(TaskResult::Accepted { encoded: vec![5] });
    assert!(matches!(action, ClientAction::Finish { .. }));
    assert_eq!(request.resubmissions(), 1);
}

#[test]
fn the_fourth_loss_ends_the_request_for_good() {
    let mut request = polling();
    assert_eq!(MAX_RESUBMISSION_ATTEMPTS, 3);
    for attempt in 1..=3u32 {
        for _ in 0..9 {
            request.on_status_round(&vec![None]);
        }
        assert_eq!(request.on_status_round(&vec![None]), ask_for_assignment(0));
        assert_eq!(request.resubmissions(), attempt);
        assert_eq!(request.on_assignment_round(&vec![assignment(3, "s3")]), send_task("s3", 1));
        assert_eq!(request.on_task_result(TaskResult::Broken), ask_for_status(0));
    }
    for _ in 0..9 {
        request.on_status_round(&vec![None]);
    }
    assert_eq!(
        request.on_status_round(&vec![None]),
        ClientAction::Fail { failure: Failure::ResubmissionsExhausted }
    );
    assert!(request.is_finished());
    assert!(!request.has_succeeded());
    assert_eq!(request.resubmissions(), 4);
    assert_eq!(Failure::ResubmissionsExhausted.classifier(), "resubmissions_exhausted");
}

#[test]
fn events_that_do_not_fit_the_phase_change_nothing() {
    let (mut request, _) = RequestCoordinator::submit("C1".to_string(), 7, vec![0xAB; 4]);
    assert_eq!(request.on_task_result(TaskResult::Broken), ClientAction::Nothing);
    assert_eq!(request.on_status_round(&vec![status(1, "s1")]), ClientAction::Nothing);
    assert_eq!(request.on_assignment_round(&vec![assignment(1, "s1")]), send_task("s1", 1));
    assert_eq!(request.on_assignment_round(&vec![assignment(2, "s2")]), ClientAction::Nothing);
    assert_eq!(request.on_status_round(&vec![status(2, "s2")]), ClientAction::Nothing);
    assert_eq!(request.assignee(), Some(1));
    assert_eq!(request.request_id(), 7);
}

#[test]
fn answers_to_a_task_are_judged() {
    let success = |bytes: Vec<u8>| {
        Some(Message::TaskResponse { request_id: 7, encrypted_image_data: bytes, success: true, error_message: None })
    };
    assert_eq!(judge_response(success(vec![1, 2]), true), TaskResult::Accepted { encoded: vec![1, 2] });
    assert_eq!(judge_response(success(vec![1, 2]), false), TaskResult::Broken);
    let refused = |reason: Option<&str>| {
        Some(Message::TaskResponse {
            request_id: 7,
            encrypted_image_data: vec![],
            success: false,
            error_message: reason.map(|r| r.to_string()),
        })
    };
    assert_eq!(
        judge_response(refused(Some("too_small")), false),
        TaskResult::Rejected { reason: "too_small".to_string() }
    );
    assert_eq!(
        judge_response(refused(Some("format")), true),
        TaskResult::Rejected { reason: "format".to_string() }
    );
    assert_eq!(judge_response(refused(None), false), TaskResult::Rejected { reason: "Unknown error".to_string() });
    assert_eq!(judge_response(None, true), TaskResult::Broken);
    assert_eq!(judge_response(Some(Message::LeaderQuery), true), TaskResult::Broken);
}

#[test]
fn bytes_that_are_no_image_do_not_pass_the_check() {
    let core = ClientCore::new("C1".to_string());
    assert_eq!(core.client_name(), "C1");
    let answer = Some(Message::TaskResponse {
        request_id: 7,
        encrypted_image_data: b"not an image".to_vec(),
        success: true,
        error_message: None,
    });
    assert_eq!(core.check_response(answer), TaskResult::Broken);
    assert_eq!(core.check_response(None), TaskResult::Broken);
    let refused = Some(Message::TaskResponse {
        request_id: 7,
        encrypted_image_data: vec![],
        success: false,
        error_message: Some("too_small".to_string()),
    });
    assert_eq!(core.check_response(refused), TaskResult::Rejected { reason: "too_small".to_string() });
}

fn client(with_record: bool) -> ClientMiddleware {
    let config = ClientConfig {
        client: ClientInfo {
            name: "C1".to_string(),
            server_addresses: vec!["s1".to_string(), "s2".to_string(), "s3".to_string()],
            image_dir: "test_images".to_string(),
        },
        requests: RequestConfig { total_requests: 1, min_delay_ms: 10, max_delay_ms: 20 },
    };
    let client = ClientMiddleware::new(config, ClientCore::new("C1".to_string()));
    if with_record {
        client.with_metrics(ClientMetrics::new("C1".to_string()))
    } else {
        client
    }
}

#[test]
fn a_client_submits_under_its_own_name() {
    let client = client(false);
    assert_eq!(client.server_count(), 3);
    assert_eq!(client.server_address(1), Some("s2".to_string()));
    assert_eq!(client.server_address(3), None);
    assert_eq!(client.config().requests.max_delay_ms, 20);
    let (request, action) = client.submit_task(7, vec![0xAB; 4]);
    assert_eq!(action, ask_for_assignment(0));
    assert_eq!(request.request_id(), 7);
    assert!(client.metrics().is_none());
}

#[test]
fn the_end_of_a_request_is_recorded_once() {
    let mut client = client(true);
    let (mut request, _) = client.submit_task(7, vec![0xAB; 4]);
    client.record_outcome(&request, Duration::from_millis(5), None);
    assert_eq!(client.metrics().unwrap().len(), 0);
    request.on_assignment_round(&vec![None, assignment(2, "s2")]);
    let failure = match request.on_task_result(TaskResult::Rejected { reason: "too_small".to_string() }) {
        ClientAction::Fail { failure } => failure,
        other => panic!("unexpected action {:?}", other),
    };
    client.record_outcome(&request, Duration::from_millis(1_500), Some(&failure));
    let stats = client.metrics().unwrap().aggregate();
    assert_eq!(stats.total_requests, 1);
    assert_eq!(stats.failed_requests, 1);
    assert_eq!(stats.failure_reasons, vec![("too_small".to_string(), 1)]);
    assert_eq!(stats.server_distribution.get(&2), Some(&1));

    let (mut second, _) = client.submit_task(8, vec![1]);
    second.on_assignment_round(&vec![assignment(1, "s1")]);
    second.on_task_result(TaskResult::Accepted { encoded: vec![1] });
    client.record_outcome(&second, Duration::from_millis(250), None);
    let stats = client.metrics().unwrap().aggregate();
    assert_eq!(stats.total_requests, 2);
    assert_eq!(stats.successful_requests, 1);
    assert_eq!(stats.latency_min_ms, 250);
    assert_eq!(stats.latency_max_ms, 250);
}
