use cloud_p2p::election::{ElectionCall, ElectionEngine, ElectionReply, ElectionState};
use cloud_p2p::random::AleaElection;

#[test]
fn test_modified_bully_election() {
    // Three peers with the same load: every call is answered by the peers with a lower id.
    let mut engines = vec![ElectionEngine::new(1), ElectionEngine::new(2), ElectionEngine::new(3)];
    let load = 100;
    let calls: Vec<ElectionCall> = engines.iter_mut().map(|e| e.start_election(load)).collect();
    for call in &calls {
        for receiver in 0..engines.len() {
            if engines[receiver].self_id() == call.from_id {
                continue;
            }
            if let Some(reply) = engines[receiver].on_election(call.from_id, call.priority, load) {
                assert_eq!(reply.alive_to, call.from_id);
                let caller = (call.from_id - 1) as usize;
                engines[caller].on_alive();
            }
        }
    }
    let announced: Vec<Option<u32>> = engines.iter_mut().map(|e| e.on_election_timeout()).collect();
    assert_eq!(announced, vec![Some(1), None, None]);
    for e in engines.iter_mut() {
        if e.self_id() != 1 {
            e.on_coordinator(1);
        }
    }
    assert_eq!(engines[0].state(), ElectionState::Leader);
    assert_eq!(engines[1].state(), ElectionState::Follower(1));
    assert_eq!(engines[2].state(), ElectionState::Follower(1));
    assert!(engines.iter().all(|e| e.leader() == Some(1)));
}

#[test]
fn test_alea_election() {
    for _ in 0..200 {
        let id = AleaElection::elect_random_server(3);
        assert!(1 <= id && id <= 3);
    }
    assert_eq!(AleaElection::elect_random_server(1), 1);
}

#[test]
fn test_coordinator_announcement() {
    let mut follower = ElectionEngine::new(2);
    assert_eq!(follower.state(), ElectionState::Idle);
    assert_eq!(follower.leader(), None);
    follower.on_coordinator(3);
    assert_eq!(follower.state(), ElectionState::Follower(3));
    assert_eq!(follower.leader(), Some(3));
    assert!(!follower.is_leader());
    follower.on_coordinator(2);
    assert_eq!(follower.state(), ElectionState::Leader);
    assert!(follower.is_leader());
}

#[test]
fn a_peer_answers_only_calls_of_worse_peers() {
    let engine = ElectionEngine::new(2);
    let answer = Some(ElectionReply { alive_to: 9, restart_after_ms: 100 });
    assert_eq!(engine.on_election(9, 50, 49), answer);
    assert_eq!(engine.on_election(9, 50, 50), answer);
    assert_eq!(engine.on_election(9, 50, 51), None);
    assert_eq!(engine.on_election(1, 50, 50), None);
    assert_eq!(engine.on_election(2, 50, 50), None);
}

#[test]
fn an_unanswered_call_wins_the_round() {
    let mut engine = ElectionEngine::new(4);
    let call = engine.start_election(1_234);
    assert_eq!(call, ElectionCall { from_id: 4, priority: 1_234 });
    assert_eq!(engine.state(), ElectionState::Electing);
    assert_eq!(engine.on_election_timeout(), Some(4));
    assert_eq!(engine.state(), ElectionState::Leader);
    assert_eq!(engine.leader(), Some(4));
}

#[test]
fn an_announcement_during_the_round_does_not_decide_it() {
    let mut engine = ElectionEngine::new(4);
    engine.start_election(1_234);
    engine.on_coordinator(7);
    assert_eq!(engine.state(), ElectionState::Follower(7));
    // No better peer has answered: the round is won all the same.
    assert_eq!(engine.on_election_timeout(), Some(4));
    assert_eq!(engine.state(), ElectionState::Leader);
    assert_eq!(engine.leader(), Some(4));
}

#[test]
fn an_answer_after_an_announcement_still_loses_the_round() {
    let mut engine = ElectionEngine::new(4);
    engine.start_election(1_234);
    engine.on_coordinator(7);
    engine.on_alive();
    assert!(engine.received_alive());
    assert_eq!(engine.on_election_timeout(), None);
    assert_eq!(engine.state(), ElectionState::Follower(7));
    assert_eq!(engine.leader(), Some(7));
}

#[test]
fn an_answered_call_loses_the_round() {
    let mut engine = ElectionEngine::new(4);
    engine.start_election(1_234);
    engine.on_alive();
    assert!(engine.received_alive());
    assert_eq!(engine.on_election_timeout(), None);
    assert_eq!(engine.state(), ElectionState::Electing);
    assert_eq!(engine.leader(), None);
    engine.on_coordinator(1);
    assert_eq!(engine.state(), ElectionState::Follower(1));
    // The next round starts with a clean slate.
    engine.start_election(0);
    assert!(!engine.received_alive());
    assert_eq!(engine.on_election_timeout(), Some(4));
}

#[test]
fn an_answer_is_kept_until_the_next_round_starts() {
    let mut engine = ElectionEngine::new(4);
    engine.on_alive();
    assert!(engine.received_alive());
    assert_eq!(engine.on_election_timeout(), None);
    assert_eq!(engine.state(), ElectionState::Idle);
    engine.start_election(0);
    assert!(!engine.received_alive());
}

#[test]
fn failure_of_the_leader_starts_a_round() {
    let mut engine = ElectionEngine::new(2);
    engine.on_coordinator(1);
    assert_eq!(engine.on_peer_failed(3, 70), None);
    assert_eq!(engine.state(), ElectionState::Follower(1));
    assert_eq!(engine.on_peer_failed(1, 70), Some(ElectionCall { from_id: 2, priority: 70 }));
    assert_eq!(engine.leader(), None);
    assert_eq!(engine.state(), ElectionState::Electing);
    assert_eq!(engine.on_peer_failed(1, 70), None);
}
