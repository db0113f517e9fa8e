//! The coordination state of one server and what it does on each event.
//!
//! A server neither reads from the network nor sleeps here. Its driver hands
//! it every message that came in and every timer that ran out, together with
//! a fresh load sample and the wall-clock time, and carries out the effects
//! that come back, in their order.

use vstd::prelude::*;
use crate::config::{ServerConfig, ServerConfigView, spec_resolve_address};
use crate::election::{ElectionEngine, ElectionView, ELECTION_RESTART_DELAY_MS};
use crate::ledger::{Assignment, LedgerMap, RequestKey, TaskLedger, ledger_add, ledger_remove, ledger_sweep};
use crate::load::{LoadScore, ServerMetrics};
use crate::message::{Message, MessageView, answer_view};
use crate::peers::{
    Candidate,
    PeerMap,
    PeerTable,
    lemma_least_loaded_unique,
    spec_is_least_loaded,
    spec_is_stale,
    spec_record_heartbeat,
};

verus! {

/// Something the driver of a server has to do on its behalf.
#[derive(Debug, PartialEq, Eq)]
pub enum Effect {
    /// Queue the message on the link to every peer; best effort.
    Broadcast(Message),
    /// Queue the message on the link to one peer; best effort.
    SendToPeer { peer_id: u32, message: Message },
    /// Write the message on the connection that the handled message came in on.
    Reply(Message),
    /// Call [`ServerMiddleware::begin_election`] after the delay.
    ScheduleElection { delay_ms: u64 },
    /// Call [`ServerMiddleware::election_timeout`] after that many seconds.
    AwaitElectionTimeout { secs: u64 },
    /// Run the encoder on a worker for CPU-bound work and answer the client
    /// with [`task_response`]; call [`ServerMiddleware::end_task`] when the
    /// handling of the task is over.
    RunEncoder { client_name: String, request_id: u64, secret_image_data: Vec<u8> },
}

/// The model of an [`Effect`].
pub enum EffectView {
    Broadcast(MessageView),
    SendToPeer { peer_id: u32, message: MessageView },
    Reply(MessageView),
    ScheduleElection { delay_ms: u64 },
    AwaitElectionTimeout { secs: u64 },
    RunEncoder { client_name: Seq<char>, request_id: u64, secret_image_data: Seq<u8> },
}

impl View for Effect {
    type V = EffectView;

    open spec fn view(&self) -> EffectView {
        match *self {
            Effect::Broadcast(message) => EffectView::Broadcast(message@),
            Effect::SendToPeer { peer_id, message } => EffectView::SendToPeer { peer_id, message: message@ },
            Effect::Reply(message) => EffectView::Reply(message@),
            Effect::ScheduleElection { delay_ms } => EffectView::ScheduleElection { delay_ms },
            Effect::AwaitElectionTimeout { secs } => EffectView::AwaitElectionTimeout { secs },
            Effect::RunEncoder { client_name, request_id, secret_image_data } => EffectView::RunEncoder {
                client_name: client_name@,
                request_id,
                secret_image_data: secret_image_data@,
            },
        }
    }
}

/// The model of a list of effects.
pub open spec fn effects_view(effects: Seq<Effect>) -> Seq<EffectView> {
    effects.map_values(|e: Effect| e@)
}

/// The model of a [`ServerMiddleware`].
pub struct ServerView {
    pub config: ServerConfigView,
    pub election: ElectionView,
    pub peers: PeerMap,
    pub ledger: LedgerMap,
    pub active_tasks: u64,
    pub total_tasks: u64,
}

/// The candidate that dispatch settles on.
pub open spec fn spec_least_loaded(peers: PeerMap, self_id: u32, self_load: LoadScore) -> Candidate {
    choose|c: Candidate| spec_is_least_loaded(peers, self_id, self_load, c)
}

/// A counter after one step up; it wraps.
pub open spec fn spec_count_up(n: u64) -> u64 {
    if n == u64::MAX {
        0
    } else {
        (n + 1) as u64
    }
}

/// A counter after one step down; it wraps.
pub open spec fn spec_count_down(n: u64) -> u64 {
    if n == 0 {
        u64::MAX
    } else {
        (n - 1) as u64
    }
}

/// The peers that count as failed at `now`.
pub open spec fn spec_failed_peers(peers: PeerMap, now: u64, timeout: u64) -> Set<u32> {
    Set::new(|id: u32| peers.contains_key(id) && spec_is_stale(peers[id].last_seen, now, timeout))
}

/// The ledger without the entries assigned to a peer of `failed`.
pub open spec fn ledger_sweep_all(m: LedgerMap, failed: Set<u32>) -> LedgerMap {
    Map::new(
        |k: (Seq<char>, u64)| m.contains_key(k) && !failed.contains(m[k].server_id),
        |k: (Seq<char>, u64)| m[k],
    )
}

/// The announcement of a round and the order to wait for its end.
pub open spec fn spec_election_effects(config: ServerConfigView, own_load: LoadScore) -> Seq<EffectView> {
    seq![
        EffectView::Broadcast(MessageView::Election { from_id: config.id, priority: own_load }),
        EffectView::AwaitElectionTimeout { secs: config.election.election_timeout_secs },
    ]
}

/// What a server in state `s` does with message `m`, given its own load and
/// the time: its next state and the effects, in order.
pub open spec fn spec_handle_message(s: ServerView, m: MessageView, own_load: LoadScore, now: u64) -> (
    ServerView,
    Seq<EffectView>,
) {
    match m {
        MessageView::Election { from_id, priority } => (
            s,
            if s.election.answers(from_id, priority, own_load) {
                seq![
                    EffectView::SendToPeer { peer_id: from_id, message: MessageView::Alive { from_id: s.config.id } },
                    EffectView::ScheduleElection { delay_ms: ELECTION_RESTART_DELAY_MS },
                ]
            } else {
                Seq::empty()
            },
        ),
        MessageView::Alive { from_id } => (ServerView { election: s.election.on_alive(), ..s }, Seq::empty()),
        MessageView::Coordinator { leader_id } => (
            ServerView { election: s.election.on_coordinator(leader_id), ..s },
            Seq::empty(),
        ),
        MessageView::Heartbeat { from_id, timestamp, load } => (
            ServerView { peers: spec_record_heartbeat(s.peers, from_id, timestamp, load), ..s },
            Seq::empty(),
        ),
        MessageView::LeaderQuery => (
            s,
            match s.election.leader {
                Some(leader_id) => seq![EffectView::Reply(MessageView::LeaderResponse { leader_id })],
                None => Seq::empty(),
            },
        ),
        MessageView::TaskAssignmentRequest { client_name, request_id } => {
            if s.election.is_leader() {
                let winner = spec_least_loaded(s.peers, s.config.id, own_load);
                (
                    ServerView {
                        ledger: ledger_add(
                            s.ledger,
                            (client_name, request_id),
                            Assignment { server_id: winner.id, timestamp: now },
                        ),
                        ..s
                    },
                    seq![
                        EffectView::Broadcast(
                            MessageView::HistoryAdd {
                                client_name,
                                request_id,
                                assigned_server_id: winner.id,
                                timestamp: now,
                            },
                        ),
                        EffectView::Reply(
                            MessageView::TaskAssignmentResponse {
                                request_id,
                                assigned_server_id: winner.id,
                                assigned_server_address: spec_resolve_address(s.config, winner.id),
                            },
                        ),
                    ],
                )
            } else {
                (s, Seq::empty())
            }
        },
        MessageView::TaskStatusQuery { client_name, request_id } => (
            s,
            if s.ledger.contains_key((client_name, request_id)) {
                let assignee = s.ledger[(client_name, request_id)].server_id;
                seq![
                    EffectView::Reply(
                        MessageView::TaskStatusResponse {
                            request_id,
                            assigned_server_id: assignee,
                            assigned_server_address: spec_resolve_address(s.config, assignee),
                        },
                    ),
                ]
            } else {
                Seq::empty()
            },
        ),
        MessageView::TaskRequest { client_name, request_id, secret_image_data, assigned_by_leader } => (
            ServerView {
                active_tasks: spec_count_up(s.active_tasks),
                total_tasks: spec_count_up(s.total_tasks),
                ..s
            },
            seq![EffectView::RunEncoder { client_name, request_id, secret_image_data }],
        ),
        MessageView::TaskAck { client_name, request_id } => (
            ServerView { ledger: ledger_remove(s.ledger, (client_name, request_id)), ..s },
            seq![EffectView::Broadcast(MessageView::HistoryRemove { client_name, request_id })],
        ),
        MessageView::HistoryAdd { client_name, request_id, assigned_server_id, timestamp } => (
            ServerView {
                ledger: ledger_add(
                    s.ledger,
                    (client_name, request_id),
                    Assignment { server_id: assigned_server_id, timestamp },
                ),
                ..s
            },
            Seq::empty(),
        ),
        MessageView::HistoryRemove { client_name, request_id } => (
            ServerView { ledger: ledger_remove(s.ledger, (client_name, request_id)), ..s },
            Seq::empty(),
        ),
        _ => (s, Seq::empty()),
    }
}

/// Whether the monitor finds the leader among the failed peers.
pub open spec fn spec_leader_failed(s: ServerView, now: u64) -> bool {
    s.election.leader is Some && spec_failed_peers(s.peers, now, s.config.election.failure_timeout_secs).contains(
        s.election.leader->0,
    )
}

/// What one pass of the failure detector does: the failed peers leave the
/// table, their ledger entries are swept, and where the leader is among them
/// the slot is cleared and a round starts.
pub open spec fn spec_monitor_tick(s: ServerView, now: u64, own_load: LoadScore) -> (ServerView, Seq<EffectView>) {
    let failed = spec_failed_peers(s.peers, now, s.config.election.failure_timeout_secs);
    (
        ServerView {
            peers: s.peers.remove_keys(failed),
            ledger: ledger_sweep_all(s.ledger, failed),
            election: if spec_leader_failed(s, now) {
                ElectionView { leader: None, ..s.election }.start()
            } else {
                s.election
            },
            ..s
        },
        if spec_leader_failed(s, now) {
            spec_election_effects(s.config, own_load)
        } else {
            Seq::empty()
        },
    )
}

/// What a server does when the handling of a task is over: where the client
/// has acknowledged the answer, the ledger entry goes and the peers are told;
/// in any case the task no longer counts as active. Without an
/// acknowledgement the entry stays until the next sweep.
pub open spec fn spec_conclude_task(s: ServerView, reply: Option<MessageView>, own_load: LoadScore, now: u64) -> (
    ServerView,
    Seq<EffectView>,
) {
    match reply {
        Some(MessageView::TaskAck { client_name, request_id }) => {
            let (next, effects) = spec_handle_message(
                s,
                MessageView::TaskAck { client_name, request_id },
                own_load,
                now,
            );
            (ServerView { active_tasks: spec_count_down(next.active_tasks), ..next }, effects)
        },
        _ => (ServerView { active_tasks: spec_count_down(s.active_tasks), ..s }, Seq::empty()),
    }
}

/// The answer to a task: the encoded bytes, or the reason why there are none.
pub open spec fn spec_task_response(request_id: u64, outcome: Result<Seq<u8>, Seq<char>>) -> MessageView {
    match outcome {
        Ok(bytes) => MessageView::TaskResponse {
            request_id,
            encrypted_image_data: bytes,
            success: true,
            error_message: None,
        },
        Err(reason) => MessageView::TaskResponse {
            request_id,
            encrypted_image_data: Seq::empty(),
            success: false,
            error_message: Some(reason),
        },
    }
}

/// The model of the outcome of an encoder run.
pub open spec fn outcome_view(outcome: Result<Vec<u8>, String>) -> Result<Seq<u8>, Seq<char>> {
    match outcome {
        Ok(bytes) => Ok(bytes@),
        Err(reason) => Err(reason@),
    }
}

/// Builds the answer to a task from the outcome of the encoder.
pub fn task_response(request_id: u64, outcome: Result<Vec<u8>, String>) -> (response: Message)
    ensures
        response@ == spec_task_response(request_id, outcome_view(outcome)),
{
    match outcome {
        Ok(bytes) => Message::TaskResponse {
            request_id,
            encrypted_image_data: bytes,
            success: true,
            error_message: None,
        },
        Err(reason) => Message::TaskResponse {
            request_id,
            encrypted_image_data: Vec::new(),
            success: false,
            error_message: Some(reason),
        },
    }
}

/// The coordination state of one server: election, peer table, ledger and task counters.
pub struct ServerMiddleware {
    config: ServerConfig,
    metrics: ServerMetrics,
    election: ElectionEngine,
    peers: PeerTable,
    task_history: TaskLedger,
}

impl View for ServerMiddleware {
    type V = ServerView;

    closed spec fn view(&self) -> ServerView {
        ServerView {
            config: self.config@,
            election: self.election@,
            peers: self.peers@,
            ledger: self.task_history@,
            active_tasks: self.metrics.active(),
            total_tasks: self.metrics.total(),
        }
    }
}

impl ServerMiddleware {
    /// The representation invariant.
    pub closed spec fn wf(&self) -> bool {
        &&& self.election@.wf()
        &&& self.election@.self_id == self.config.server.id
        &&& self.task_history.wf()
    }

    /// A server that has heard of nobody and holds no ledger entry.
    pub fn new(config: ServerConfig) -> (server: Self)
        ensures
            server.wf(),
            server@ == (ServerView {
                config: config@,
                election: ElectionView::initial(config@.id),
                peers: Map::<u32, crate::peers::PeerRecord>::empty(),
                ledger: Map::<(Seq<char>, u64), Assignment>::empty(),
                active_tasks: 0,
                total_tasks: 0,
            }),
    {
        let election = ElectionEngine::new(config.server.id);
        ServerMiddleware {
            config,
            metrics: ServerMetrics::new(),
            election,
            peers: PeerTable::new(),
            task_history: TaskLedger::new(),
        }
    }

    /// The id of this server.
    pub fn id(&self) -> (id: u32)
        ensures
            id == self@.config.id,
    {
        self.config.server.id
    }

    /// The leader slot.
    pub fn current_leader(&self) -> (leader: Option<u32>)
        ensures
            leader == self@.election.leader,
    {
        self.election.leader()
    }

    /// Whether this server holds itself to be the leader.
    pub fn is_leader(&self) -> (is: bool)
        ensures
            is == self@.election.is_leader(),
    {
        self.election.is_leader()
    }

    /// The number of tasks that are running now.
    pub fn active_tasks(&self) -> (n: u64)
        ensures
            n == self@.active_tasks,
    {
        self.metrics.get_active_tasks()
    }

    /// The load of this server for a CPU usage and an available-memory share.
    pub fn sample_load(&self, cpu: u32, mem_available: u32) -> (load: LoadScore)
        ensures
            load == crate::load::spec_load_score(cpu as int, self@.active_tasks as int, mem_available as int),
    {
        self.metrics.get_load(cpu, mem_available)
    }

    /// The ledger entry for a request, if this server holds one.
    pub fn assignment_of(&self, key: &RequestKey) -> (found: Option<Assignment>)
        requires
            self.wf(),
        ensures
            found == (if self@.ledger.contains_key(key@) {
                Some(self@.ledger[key@])
            } else {
                None
            }),
    {
        self.task_history.lookup(key)
    }

    /// The heartbeat to broadcast at `now`.
    pub fn heartbeat(&self, own_load: LoadScore, now: u64) -> (message: Message)
        ensures
            message@ == (MessageView::Heartbeat { from_id: self@.config.id, timestamp: now, load: own_load }),
    {
        Message::Heartbeat { from_id: self.config.server.id, timestamp: now, load: own_load }
    }

    /// Starts an election round: the call to broadcast and the order to come
    /// back when the election timeout has passed.
    pub fn begin_election(&mut self, own_load: LoadScore) -> (effects: Vec<Effect>)
        requires
            old(self).wf(),
        ensures
            final(self).wf(),
            final(self)@ == (ServerView { election: old(self)@.election.start(), ..old(self)@ }),
            effects_view(effects@) == spec_election_effects(old(self)@.config, own_load),
    {
        let call = self.election.start_election(own_load);
        let mut effects: Vec<Effect> = Vec::new();
        effects.push(Effect::Broadcast(Message::Election { from_id: call.from_id, priority: call.priority }));
        effects.push(Effect::AwaitElectionTimeout { secs: self.config.election.election_timeout_secs });
        assert(effects_view(effects@) =~= spec_election_effects(old(self)@.config, own_load));
        effects
    }

    /// The election timeout has passed. A server that heard of no better
    /// peer during its round is the leader now and announces itself.
    pub fn election_timeout(&mut self) -> (effects: Vec<Effect>)
        requires
            old(self).wf(),
        ensures
            final(self).wf(),
            final(self)@ == (ServerView { election: old(self)@.election.on_timeout(), ..old(self)@ }),
            effects_view(effects@) == (if old(self)@.election.wins() {
                seq![EffectView::Broadcast(MessageView::Coordinator { leader_id: old(self)@.config.id })]
            } else {
                Seq::<EffectView>::empty()
            }),
    {
        let mut effects: Vec<Effect> = Vec::new();
        match self.election.on_election_timeout() {
            Some(leader_id) => {
                effects.push(Effect::Broadcast(Message::Coordinator { leader_id }));
                assert(effects_view(effects@) =~= seq![
                    EffectView::Broadcast(MessageView::Coordinator { leader_id: old(self)@.config.id }),
                ]);
            },
            None => {
                assert(effects_view(effects@) =~= Seq::<EffectView>::empty());
            },
        }
        effects
    }

    /// The handling of a task is over, with or without acknowledgement.
    pub fn end_task(&mut self)
        requires
            old(self).wf(),
        ensures
            final(self).wf(),
            final(self)@ == (ServerView { active_tasks: spec_count_down(old(self)@.active_tasks), ..old(self)@ }),
    {
        self.metrics.task_finished();
    }

    /// The handling of a task is over. `reply` is what the client sent after
    /// the answer, `None` where it sent nothing before the connection ended.
    pub fn conclude_task(&mut self, reply: Option<Message>, own_load: LoadScore, now: u64) -> (effects: Vec<Effect>)
        requires
            old(self).wf(),
        ensures
            final(self).wf(),
            final(self)@ == spec_conclude_task(old(self)@, answer_view(reply), own_load, now).0,
            effects_view(effects@) == spec_conclude_task(
                old(self)@,
                answer_view(reply),
                own_load,
                now,
            ).1,
    {
        let effects = match reply {
            Some(Message::TaskAck { client_name, request_id }) => self.handle_message(
                Message::TaskAck { client_name, request_id },
                own_load,
                now,
            ),
            _ => {
                let nothing: Vec<Effect> = Vec::new();
                assert(effects_view(nothing@) =~= Seq::<EffectView>::empty());
                nothing
            },
        };
        self.end_task();
        effects
    }

    /// One pass of the failure detector at `now`.
    pub fn monitor_tick(&mut self, now: u64, own_load: LoadScore) -> (effects: Vec<Effect>)
        requires
            old(self).wf(),
        ensures
            final(self).wf(),
            final(self)@ == spec_monitor_tick(old(self)@, now, own_load).0,
            effects_view(effects@) == spec_monitor_tick(old(self)@, now, own_load).1,
    {
        let ghost before = self@;
        let timeout = self.config.election.failure_timeout_secs;
        let ghost failed = spec_failed_peers(before.peers, now, timeout);
        let stale = self.peers.stale_peers(now, timeout);
        let mut effects: Vec<Effect> = Vec::new();
        let mut i: usize = 0;
        assert(before.peers.remove_keys(Set::<u32>::empty()) =~= before.peers);
        assert(ledger_sweep_all(before.ledger, Set::<u32>::empty()) =~= before.ledger);
        assert(effects_view(effects@) =~= Seq::<EffectView>::empty());
        while i < stale.len()
            invariant
                self.wf(),
                i <= stale@.len(),
                stale@.no_duplicates(),
                forall|id: u32| stale@.contains(id) <==> failed.contains(id),
                self@.config == before.config,
                self@.active_tasks == before.active_tasks,
                self@.total_tasks == before.total_tasks,
                self@.peers == before.peers.remove_keys(Set::new(|id: u32| stale@.subrange(0, i as int).contains(id))),
                self@.ledger == ledger_sweep_all(
                    before.ledger,
                    Set::new(|id: u32| stale@.subrange(0, i as int).contains(id)),
                ),
                before.election.wf(),
                before.election.self_id == before.config.id,
                timeout == before.config.election.failure_timeout_secs,
                ({
                    let gone = before.election.leader is Some && stale@.subrange(0, i as int).contains(
                        before.election.leader->0,
                    );
                    &&& self@.election == (if gone {
                        ElectionView { leader: None, ..before.election }.start()
                    } else {
                        before.election
                    })
                    &&& effects_view(effects@) == (if gone {
                        spec_election_effects(before.config, own_load)
                    } else {
                        Seq::<EffectView>::empty()
                    })
                }),
            decreases stale@.len() - i,
        {
            let peer_id = stale[i];
            let ghost done = stale@.subrange(0, i as int);
            let ghost next = stale@.subrange(0, i + 1);
            let ghost done_set = Set::new(|id: u32| done.contains(id));
            let ghost next_set = Set::new(|id: u32| next.contains(id));
            proof {
                assert(next =~= done.push(peer_id));
                assert forall|id: u32| next.contains(id) == (done.contains(id) || id == peer_id) by {
                    if done.contains(id) {
                        let a = choose|a: int| 0 <= a < done.len() && done[a] == id;
                        assert(next[a] == id);
                    }
                    if id == peer_id {
                        assert(next[i as int] == id);
                    }
                    if next.contains(id) {
                        let a = choose|a: int| 0 <= a < next.len() && next[a] == id;
                        if a < i {
                            assert(done[a] == id);
                        }
                    }
                }
                assert(next_set =~= done_set.insert(peer_id));
            }
            self.peers.remove(peer_id);
            self.task_history.sweep(peer_id);
            let ghost effects_before = effects@;
            match self.election.on_peer_failed(peer_id, own_load) {
                Some(call) => {
                    effects.push(
                        Effect::Broadcast(Message::Election { from_id: call.from_id, priority: call.priority }),
                    );
                    effects.push(Effect::AwaitElectionTimeout { secs: self.config.election.election_timeout_secs });
                    proof {
                        assert(effects_before.len() == effects_view(effects_before).len());
                        assert(effects_view(effects@) =~= spec_election_effects(before.config, own_load));
                    }
                },
                None => {},
            }
            proof {
                assert(before.peers.remove_keys(done_set).remove(peer_id) =~= before.peers.remove_keys(next_set));
                assert(ledger_sweep(ledger_sweep_all(before.ledger, done_set), peer_id) =~= ledger_sweep_all(
                    before.ledger,
                    next_set,
                ));
            }
            i += 1;
        }
        proof {
            assert(stale@.subrange(0, stale@.len() as int) =~= stale@);
            assert(Set::new(|id: u32| stale@.contains(id)) =~= failed);
        }
        effects
    }

    /// Handles one message that came in, from a peer or from a client.
    pub fn handle_message(&mut self, message: Message, own_load: LoadScore, now: u64) -> (effects: Vec<Effect>)
        requires
            old(self).wf(),
        ensures
            final(self).wf(),
            final(self)@ == spec_handle_message(old(self)@, message@, own_load, now).0,
            effects_view(effects@) == spec_handle_message(old(self)@, message@, own_load, now).1,
    {
        let ghost before = self@;
        let ghost expected = spec_handle_message(before, message@, own_load, now).1;
        let mut effects: Vec<Effect> = Vec::new();
        match message {
            Message::Election { from_id, priority } => {
                match self.election.on_election(from_id, priority, own_load) {
                    Some(reply) => {
                        effects.push(
                            Effect::SendToPeer {
                                peer_id: reply.alive_to,
                                message: Message::Alive { from_id: self.config.server.id },
                            },
                        );
                        effects.push(Effect::ScheduleElection { delay_ms: reply.restart_after_ms });
                    },
                    None => {},
                }
            },
            Message::Alive { from_id } => {
                self.election.on_alive();
            },
            Message::Coordinator { leader_id } => {
                self.election.on_coordinator(leader_id);
            },
            Message::Heartbeat { from_id, timestamp, load } => {
                let _ = self.peers.record_heartbeat(from_id, timestamp, load);
            },
            Message::LeaderQuery => {
                match self.election.leader() {
                    Some(leader_id) => {
                        effects.push(Effect::Reply(Message::LeaderResponse { leader_id }));
                    },
                    None => {},
                }
            },
            Message::TaskAssignmentRequest { client_name, request_id } => {
                if self.election.is_leader() {
                    let winner = self.peers.least_loaded(self.config.server.id, own_load);
                    proof {
                        let chosen = spec_least_loaded(before.peers, before.config.id, own_load);
                        lemma_least_loaded_unique(before.peers, before.config.id, own_load, winner, chosen);
                    }
                    let address = self.config.resolve_address(winner.id);
                    self.task_history.add(RequestKey::new(client_name.clone(), request_id), winner.id, now);
                    effects.push(
                        Effect::Broadcast(
                            Message::HistoryAdd {
                                client_name,
                                request_id,
                                assigned_server_id: winner.id,
                                timestamp: now,
                            },
                        ),
                    );
                    effects.push(
                        Effect::Reply(
                            Message::TaskAssignmentResponse {
                                request_id,
                                assigned_server_id: winner.id,
                                assigned_server_address: address,
                            },
                        ),
                    );
                }
            },
            Message::TaskStatusQuery { client_name, request_id } => {
                let key = RequestKey::new(client_name, request_id);
                match self.task_history.lookup(&key) {
                    Some(assignment) => {
                        let address = self.config.resolve_address(assignment.server_id);
                        effects.push(
                            Effect::Reply(
                                Message::TaskStatusResponse {
                                    request_id,
                                    assigned_server_id: assignment.server_id,
                                    assigned_server_address: address,
                                },
                            ),
                        );
                    },
                    None => {},
                }
            },
            Message::TaskRequest { client_name, request_id, secret_image_data, assigned_by_leader } => {
                self.metrics.task_started();
                effects.push(Effect::RunEncoder { client_name, request_id, secret_image_data });
            },
            Message::TaskAck { client_name, request_id } => {
                let key = RequestKey::new(client_name.clone(), request_id);
                self.task_history.remove(&key);
                effects.push(Effect::Broadcast(Message::HistoryRemove { client_name, request_id }));
            },
            Message::HistoryAdd { client_name, request_id, assigned_server_id, timestamp } => {
                self.task_history.add(RequestKey::new(client_name, request_id), assigned_server_id, timestamp);
            },
            Message::HistoryRemove { client_name, request_id } => {
                let key = RequestKey::new(client_name, request_id);
                self.task_history.remove(&key);
            },
            _ => {},
        }
        assert(effects_view(effects@) =~= expected);
        effects
    }
}

/// A server that does not hold itself to be the leader does nothing at all
/// with a request for an assignment: no state changes and nothing is sent.
pub proof fn lemma_only_the_leader_assigns(
    s: ServerView,
    client_name: Seq<char>,
    request_id: u64,
    own_load: LoadScore,
    now: u64,
)
    requires
        !s.election.is_leader(),
    ensures
        spec_handle_message(s, MessageView::TaskAssignmentRequest { client_name, request_id }, own_load, now) == (
            s,
            Seq::<EffectView>::empty(),
        ),
{
}

/// The leader assigns a request to the least loaded server it knows of,
/// itself included, and records that in its ledger before it answers: no
/// known server has a lower load than the assignee, and none with the same
/// load has a lower id.
pub proof fn lemma_assignment_goes_to_the_least_loaded(
    s: ServerView,
    client_name: Seq<char>,
    request_id: u64,
    own_load: LoadScore,
    now: u64,
)
    requires
        s.election.is_leader(),
        s.peers.dom().finite(),
    ensures
        ({
            let m = MessageView::TaskAssignmentRequest { client_name, request_id };
            let (next, effects) = spec_handle_message(s, m, own_load, now);
            let winner = spec_least_loaded(s.peers, s.config.id, own_load);
            &&& spec_is_least_loaded(s.peers, s.config.id, own_load, winner)
            &&& winner.load <= own_load
            &&& forall|id: u32| #[trigger] s.peers.contains_key(id) ==> winner.load <= s.peers[id].load
            &&& next.ledger.contains_key((client_name, request_id))
            &&& next.ledger[(client_name, request_id)].server_id == winner.id
            &&& effects.len() == 2
            &&& effects[0] is Broadcast
            &&& effects[1] is Reply
        }),
{
    lemma_some_candidate_is_least_loaded(s.peers, s.config.id, own_load);
}

/// Among this server and the peers of a table there is a least loaded one.
pub proof fn lemma_some_candidate_is_least_loaded(peers: PeerMap, self_id: u32, self_load: LoadScore)
    requires
        peers.dom().finite(),
    ensures
        spec_is_least_loaded(peers, self_id, self_load, spec_least_loaded(peers, self_id, self_load)),
    decreases peers.dom().len(),
{
    if peers.dom().len() == 0 {
        let own = Candidate { id: self_id, load: self_load };
        assert forall|id: u32| !peers.contains_key(id) by {
            if peers.dom().contains(id) {
                assert(peers.dom().len() > 0);
            }
        }
        assert(spec_is_least_loaded(peers, self_id, self_load, own));
    } else {
        let id = peers.dom().choose();
        let rest = peers.remove(id);
        lemma_some_candidate_is_least_loaded(rest, self_id, self_load);
        let best = spec_least_loaded(rest, self_id, self_load);
        let challenger = Candidate { id, load: peers[id].load };
        if crate::load::spec_outranks(challenger.load, challenger.id, best.load, best.id) {
            assert forall|other: u32| #[trigger] peers.contains_key(other) implies !crate::load::spec_outranks(
                peers[other].load,
                other,
                challenger.load,
                challenger.id,
            ) by {
                if other != id {
                    assert(rest.contains_key(other));
                }
            }
            assert(spec_is_least_loaded(peers, self_id, self_load, challenger));
        } else {
            assert forall|other: u32| #[trigger] peers.contains_key(other) implies !crate::load::spec_outranks(
                peers[other].load,
                other,
                best.load,
                best.id,
            ) by {
                if other != id {
                    assert(rest.contains_key(other));
                }
            }
            if best.id == self_id && best.load == self_load {
            } else {
                assert(rest.contains_key(best.id));
            }
            assert(spec_is_least_loaded(peers, self_id, self_load, best));
        }
    }
}

/// After a pass of the failure detector no ledger entry is left with a
/// failed peer, every entry of another server is as it was, and no failed
/// peer is left in the table.
pub proof fn lemma_monitor_sweeps_the_failed(s: ServerView, now: u64, own_load: LoadScore)
    ensures
        ({
            let failed = spec_failed_peers(s.peers, now, s.config.election.failure_timeout_secs);
            let next = spec_monitor_tick(s, now, own_load).0;
            &&& forall|k: (Seq<char>, u64)| #[trigger] next.ledger.contains_key(k) ==> !failed.contains(next.ledger[k].server_id)
            &&& forall|k: (Seq<char>, u64)| #[trigger]
                s.ledger.contains_key(k) && !failed.contains(s.ledger[k].server_id) ==> next.ledger.contains_key(k)
                    && next.ledger[k] == s.ledger[k]
            &&& forall|id: u32| failed.contains(id) ==> !(#[trigger] next.peers.contains_key(id))
            &&& forall|id: u32| #[trigger]
                s.peers.contains_key(id) && !failed.contains(id) ==> next.peers.contains_key(id) && next.peers[id]
                    == s.peers[id]
            &&& spec_leader_failed(s, now) ==> next.election.leader is None && next.election.state
                == crate::election::ElectionState::Electing
        }),
{
}

impl ServerMiddleware {
    /// A server knows of finitely many peers and holds finitely many ledger entries.
    pub proof fn lemma_view_is_finite(&self)
        requires
            self.wf(),
        ensures
            self@.peers.dom().finite(),
            self@.ledger.dom().finite(),
    {
        self.peers.lemma_view_is_finite();
        self.task_history.lemma_view_is_finite();
    }

    /// The election state of a server is that of the peer it is configured as,
    /// with state and leader slot in agreement.
    pub proof fn lemma_view_is_in_agreement(&self)
        requires
            self.wf(),
        ensures
            self@.election.wf(),
            self@.election.self_id == self@.config.id,
    {
    }
}

/// A peer that was heard from within the failure timeout is not among the
/// failed, and a pass of the failure detector leaves it and its ledger
/// entries alone.
pub proof fn lemma_fresh_peer_is_kept(s: ServerView, id: u32, now: u64, own_load: LoadScore)
    requires
        s.peers.contains_key(id),
        now - s.peers[id].last_seen <= s.config.election.failure_timeout_secs,
    ensures
        !spec_failed_peers(s.peers, now, s.config.election.failure_timeout_secs).contains(id),
        spec_monitor_tick(s, now, own_load).0.peers.contains_key(id),
        forall|k: (Seq<char>, u64)| #[trigger]
            s.ledger.contains_key(k) && s.ledger[k].server_id == id ==> spec_monitor_tick(
                s,
                now,
                own_load,
            ).0.ledger.contains_key(k),
        s.election.leader == Some(id) ==> spec_monitor_tick(s, now, own_load).0.election == s.election,
{
}

/// Handling a message keeps the agreement of state and leader slot.
pub proof fn lemma_handling_keeps_agreement(s: ServerView, m: MessageView, own_load: LoadScore, now: u64)
    requires
        s.election.wf(),
    ensures
        spec_handle_message(s, m, own_load, now).0.election.wf(),
        spec_monitor_tick(s, now, own_load).0.election.wf(),
{
}

} // verus!
