//! The election engine: a Bully election in which the priority of a peer is
//! its load at the moment of the election.
//!
//! The engine decides; it sends nothing and waits for nothing. Its caller
//! delivers the messages it returns and calls back when a timer has run out.

use vstd::prelude::*;
use crate::load::{LoadScore, spec_outranks, outranks};
use crate::peers::Candidate;

verus! {

/// How long a peer that answered an election waits before it starts its own, in milliseconds.
pub const ELECTION_RESTART_DELAY_MS: u64 = 100;

/// The warm-up before the first election of a peer, in milliseconds.
pub const STARTUP_DELAY_MS: u64 = 3_000;

/// The bounds of the random addition to the warm-up: from 100 ms, below 500 ms.
pub const STARTUP_JITTER_MIN_MS: u64 = 100;

pub const STARTUP_JITTER_END_MS: u64 = 500;

/// Where a peer stands in the election protocol.
#[derive(Clone, Copy, Debug, PartialEq, Eq, Structural)]
pub enum ElectionState {
    Idle,
    Electing,
    Leader,
    Follower(u32),
}

/// The model of an [`ElectionEngine`].
pub struct ElectionView {
    pub self_id: u32,
    pub state: ElectionState,
    /// The leader slot: the peer last announced as leader, unless it failed since.
    pub leader: Option<u32>,
    /// Whether a better peer has answered since the last round started.
    pub received_alive: bool,
}

/// What an engine announces when it starts a round.
#[derive(Clone, Copy, Debug, PartialEq, Eq, Structural)]
pub struct ElectionCall {
    pub from_id: u32,
    pub priority: LoadScore,
}

/// What a peer does on an election call from a worse peer: it tells the
/// caller that it is alive, and starts a round of its own after the delay.
#[derive(Clone, Copy, Debug, PartialEq, Eq, Structural)]
pub struct ElectionReply {
    pub alive_to: u32,
    pub restart_after_ms: u64,
}

impl ElectionView {
    /// State and leader slot agree.
    pub open spec fn wf(self) -> bool {
        &&& self.state == ElectionState::Idle ==> self.leader is None
        &&& self.state == ElectionState::Leader ==> self.leader == Some(self.self_id)
        &&& forall|x: u32| self.state == ElectionState::Follower(x) ==> self.leader == Some(x) && x != self.self_id
    }

    /// Whether this peer holds itself to be the leader.
    pub open spec fn is_leader(self) -> bool {
        self.leader == Some(self.self_id)
    }

    /// A peer before its first election.
    pub open spec fn initial(self_id: u32) -> ElectionView {
        ElectionView { self_id, state: ElectionState::Idle, leader: None, received_alive: false }
    }

    /// A round starts: no better peer has answered yet.
    pub open spec fn start(self) -> ElectionView {
        ElectionView { state: ElectionState::Electing, received_alive: false, ..self }
    }

    /// Whether this peer, with `own_load`, answers the election call of `from_id`.
    pub open spec fn answers(self, from_id: u32, priority: LoadScore, own_load: LoadScore) -> bool {
        spec_outranks(own_load, self.self_id, priority, from_id)
    }

    /// A better peer answered: the round is lost. The answer is kept in
    /// every state, also where an announcement has come in between.
    pub open spec fn on_alive(self) -> ElectionView {
        ElectionView { received_alive: true, ..self }
    }

    /// A leader was announced.
    pub open spec fn on_coordinator(self, leader_id: u32) -> ElectionView {
        ElectionView {
            leader: Some(leader_id),
            state: if leader_id == self.self_id {
                ElectionState::Leader
            } else {
                ElectionState::Follower(leader_id)
            },
            ..self
        }
    }

    /// Whether the round is won when its timer runs out: no better peer has
    /// answered since it started. The answer alone decides, whatever was
    /// announced in the meantime.
    pub open spec fn wins(self) -> bool {
        !self.received_alive
    }

    /// The election timer of a round ran out.
    pub open spec fn on_timeout(self) -> ElectionView {
        if self.wins() {
            ElectionView { state: ElectionState::Leader, leader: Some(self.self_id), ..self }
        } else {
            self
        }
    }

    /// Peer `peer_id` was declared failed: where it was the leader, the slot
    /// is cleared and a new round starts.
    pub open spec fn on_peer_failed(self, peer_id: u32) -> ElectionView {
        if self.leader == Some(peer_id) {
            ElectionView { leader: None, ..self }.start()
        } else {
            self
        }
    }
}

/// The election engine of one peer.
pub struct ElectionEngine {
    self_id: u32,
    state: ElectionState,
    leader: Option<u32>,
    received_alive: bool,
}

impl View for ElectionEngine {
    type V = ElectionView;

    closed spec fn view(&self) -> ElectionView {
        ElectionView {
            self_id: self.self_id,
            state: self.state,
            leader: self.leader,
            received_alive: self.received_alive,
        }
    }
}

impl ElectionEngine {
    /// The engine of peer `self_id`, before its first election.
    pub fn new(self_id: u32) -> (engine: Self)
        ensures
            engine@ == ElectionView::initial(self_id),
            engine@.wf(),
    {
        ElectionEngine { self_id, state: ElectionState::Idle, leader: None, received_alive: false }
    }

    pub fn self_id(&self) -> (id: u32)
        ensures
            id == self@.self_id,
    {
        self.self_id
    }

    pub fn state(&self) -> (state: ElectionState)
        ensures
            state == self@.state,
    {
        self.state
    }

    /// The leader slot.
    pub fn leader(&self) -> (leader: Option<u32>)
        ensures
            leader == self@.leader,
    {
        self.leader
    }

    pub fn received_alive(&self) -> (flag: bool)
        ensures
            flag == self@.received_alive,
    {
        self.received_alive
    }

    /// Whether this peer holds itself to be the leader.
    pub fn is_leader(&self) -> (is: bool)
        ensures
            is == self@.is_leader(),
    {
        match self.leader {
            Some(id) => id == self.self_id,
            None => false,
        }
    }

    /// Starts a round with `own_load` as priority. The call that comes back
    /// is to be broadcast; the caller reports when the election timeout has passed.
    pub fn start_election(&mut self, own_load: LoadScore) -> (call: ElectionCall)
        requires
            old(self)@.wf(),
        ensures
            final(self)@ == old(self)@.start(),
            final(self)@.wf(),
            call == (ElectionCall { from_id: old(self)@.self_id, priority: own_load }),
    {
        self.received_alive = false;
        self.state = ElectionState::Electing;
        ElectionCall { from_id: self.self_id, priority: own_load }
    }

    /// An election call of `from_id` came in. A peer that is strictly better
    /// answers it; any other peer defers and does nothing.
    pub fn on_election(&self, from_id: u32, priority: LoadScore, own_load: LoadScore) -> (reply: Option<
        ElectionReply,
    >)
        ensures
            reply == (if self@.answers(from_id, priority, own_load) {
                Some(ElectionReply { alive_to: from_id, restart_after_ms: ELECTION_RESTART_DELAY_MS })
            } else {
                None
            }),
    {
        if outranks(own_load, self.self_id, priority, from_id) {
            Some(ElectionReply { alive_to: from_id, restart_after_ms: ELECTION_RESTART_DELAY_MS })
        } else {
            None
        }
    }

    /// A better peer answered our call.
    pub fn on_alive(&mut self)
        requires
            old(self)@.wf(),
        ensures
            final(self)@ == old(self)@.on_alive(),
            final(self)@.wf(),
    {
        self.received_alive = true;
    }

    /// `leader_id` announced itself as leader.
    pub fn on_coordinator(&mut self, leader_id: u32)
        requires
            old(self)@.wf(),
        ensures
            final(self)@ == old(self)@.on_coordinator(leader_id),
            final(self)@.wf(),
    {
        self.leader = Some(leader_id);
        self.state = if leader_id == self.self_id {
            ElectionState::Leader
        } else {
            ElectionState::Follower(leader_id)
        };
    }

    /// The election timeout of a round has passed. Where the round is won,
    /// this peer is the leader from now on and the id that comes back, its
    /// own, is to be announced to all peers. The caller reports a timeout
    /// only for a round that it has started.
    pub fn on_election_timeout(&mut self) -> (announce: Option<u32>)
        requires
            old(self)@.wf(),
        ensures
            final(self)@ == old(self)@.on_timeout(),
            final(self)@.wf(),
            announce == (if old(self)@.wins() {
                Some(old(self)@.self_id)
            } else {
                None
            }),
    {
        if !self.received_alive {
            self.state = ElectionState::Leader;
            self.leader = Some(self.self_id);
            Some(self.self_id)
        } else {
            None
        }
    }

    /// Peer `peer_id` was declared failed. Returns whether it was the leader;
    /// then the slot is cleared and a round has started, with `own_load` as
    /// the priority of the call that is to be broadcast.
    pub fn on_peer_failed(&mut self, peer_id: u32, own_load: LoadScore) -> (call: Option<ElectionCall>)
        requires
            old(self)@.wf(),
        ensures
            final(self)@ == old(self)@.on_peer_failed(peer_id),
            final(self)@.wf(),
            call == (if old(self)@.leader == Some(peer_id) {
                Some(ElectionCall { from_id: old(self)@.self_id, priority: own_load })
            } else {
                None
            }),
    {
        let was_leader = match self.leader {
            Some(id) => id == peer_id,
            None => false,
        };
        if was_leader {
            self.leader = None;
            self.received_alive = false;
            self.state = ElectionState::Electing;
            Some(ElectionCall { from_id: self.self_id, priority: own_load })
        } else {
            None
        }
    }
}

/// Whether candidate `a` is strictly better than candidate `b`.
pub open spec fn spec_beats(a: Candidate, b: Candidate) -> bool {
    spec_outranks(a.load, a.id, b.load, b.id)
}

/// No two candidates of the field have the same id.
pub open spec fn spec_distinct_ids(field: Seq<Candidate>) -> bool {
    forall|i: int, j: int| 0 <= i < j < field.len() ==> (#[trigger] field[i]).id != (#[trigger] field[j]).id
}

/// Whether the candidate at `w` is strictly better than every other candidate of the field.
pub open spec fn spec_is_best(field: Seq<Candidate>, w: int) -> bool {
    0 <= w < field.len() && forall|j: int| 0 <= j < field.len() && j != w ==> spec_beats(field[w], #[trigger] field[j])
}

/// Whether the candidate at `i` gets an answer to its election call: some
/// other candidate of the field is strictly better.
pub open spec fn spec_hears_alive(field: Seq<Candidate>, i: int) -> bool {
    exists|j: int| 0 <= j < field.len() && j != i && spec_beats(#[trigger] field[j], field[i])
}

/// The engine of the candidate at `i` when the timer of a round runs out in
/// which every candidate called an election and every call and answer arrived.
pub open spec fn spec_at_timeout(field: Seq<Candidate>, i: int, start: ElectionView) -> ElectionView {
    if spec_hears_alive(field, i) {
        start.start().on_alive()
    } else {
        start.start()
    }
}

/// The engine of the candidate at `i` after such a round, once the
/// announcement of `winner_id` has arrived.
pub open spec fn spec_after_round(field: Seq<Candidate>, i: int, start: ElectionView, winner_id: u32) -> ElectionView {
    spec_at_timeout(field, i, start).on_timeout().on_coordinator(winner_id)
}

/// Between two peers with different ids, exactly one is strictly better; and
/// being better carries over from one pair to the next.
pub proof fn lemma_priority_is_a_strict_order(a: Candidate, b: Candidate, c: Candidate)
    ensures
        !spec_beats(a, a),
        a.id != b.id ==> (spec_beats(a, b) <==> !spec_beats(b, a)),
        spec_beats(a, b) && spec_beats(b, c) ==> spec_beats(a, c),
{
}

/// A field that is not empty and has distinct ids has a best candidate.
pub proof fn lemma_best_exists(field: Seq<Candidate>) -> (w: int)
    requires
        field.len() > 0,
        spec_distinct_ids(field),
    ensures
        spec_is_best(field, w),
    decreases field.len(),
{
    if field.len() == 1 {
        0
    } else {
        let rest = field.drop_last();
        assert forall|i: int, j: int| 0 <= i < j < rest.len() implies (#[trigger] rest[i]).id != (#[trigger] rest[j]).id by {
            assert(rest[i] == field[i]);
            assert(rest[j] == field[j]);
        }
        let v = lemma_best_exists(rest);
        let last = field.len() - 1;
        assert(rest[v] == field[v]);
        assert(field[v].id != field[last].id);
        if spec_beats(field[v], field[last]) {
            assert forall|j: int| 0 <= j < field.len() && j != v implies spec_beats(field[v], #[trigger] field[j]) by {
                if j < last {
                    assert(rest[j] == field[j]);
                }
            }
            v
        } else {
            assert forall|j: int| 0 <= j < field.len() && j != last implies spec_beats(
                field[last],
                #[trigger] field[j],
            ) by {
                assert(rest[j] == field[j]);
                if j != v {
                    assert(spec_beats(rest[v], rest[j]));
                }
            }
            last
        }
    }
}

/// One full round settles the election: among peers with distinct ids whose
/// calls and answers all arrive, the best candidate alone wins its round and
/// announces itself, and once the announcement has arrived every peer holds
/// the winner for the leader: the winner as `Leader`, every other peer as
/// its `Follower`.
pub proof fn lemma_full_round_elects_the_best(field: Seq<Candidate>, starts: Seq<ElectionView>, w: int)
    requires
        spec_distinct_ids(field),
        spec_is_best(field, w),
        starts.len() == field.len(),
        forall|i: int| 0 <= i < field.len() ==> (#[trigger] starts[i]).self_id == field[i].id,
    ensures
        forall|i: int| 0 <= i < field.len() ==> (#[trigger] spec_at_timeout(field, i, starts[i]).wins() <==> i == w),
        forall|i: int|
            0 <= i < field.len() ==> (#[trigger] spec_after_round(field, i, starts[i], field[w].id)).leader == Some(
                field[w].id,
            ),
        spec_after_round(field, w, starts[w], field[w].id).state == ElectionState::Leader,
        forall|i: int|
            0 <= i < field.len() && i != w ==> (#[trigger] spec_after_round(field, i, starts[i], field[w].id)).state
                == ElectionState::Follower(field[w].id),
        forall|i: int| 0 <= i < field.len() ==> (#[trigger] spec_after_round(field, i, starts[i], field[w].id)).wf(),
{
    assert(!spec_hears_alive(field, w)) by {
        if spec_hears_alive(field, w) {
            let j = choose|j: int| 0 <= j < field.len() && j != w && spec_beats(#[trigger] field[j], field[w]);
            assert(spec_beats(field[w], field[j]));
        }
    }
    assert forall|i: int| 0 <= i < field.len() && i != w implies spec_hears_alive(field, i) && field[i].id
        != field[w].id by {
        assert(spec_beats(field[w], field[i]));
        if i < w {
            assert(field[i].id != field[w].id);
        } else {
            assert(field[w].id != field[i].id);
        }
    }
    assert forall|i: int| 0 <= i < field.len() implies (#[trigger] spec_at_timeout(field, i, starts[i]).wins() <==> i
        == w) by {
        if i != w {
            assert(spec_hears_alive(field, i));
        }
    }
    assert forall|i: int| 0 <= i < field.len() && i != w implies (#[trigger] spec_after_round(
        field,
        i,
        starts[i],
        field[w].id,
    )).state == ElectionState::Follower(field[w].id) by {
        assert(spec_hears_alive(field, i) && field[i].id != field[w].id);
        assert(starts[i].self_id == field[i].id);
    }
    assert forall|i: int| 0 <= i < field.len() implies (#[trigger] spec_after_round(
        field,
        i,
        starts[i],
        field[w].id,
    )).wf() by {
        if i != w {
            assert(spec_hears_alive(field, i) && field[i].id != field[w].id);
        }
        assert(starts[i].self_id == field[i].id);
    }
}

/// Every transition keeps state and leader slot in agreement.
pub proof fn lemma_transitions_keep_agreement(e: ElectionView, leader_id: u32, peer_id: u32)
    requires
        e.wf(),
    ensures
        e.start().wf(),
        e.on_alive().wf(),
        e.on_coordinator(leader_id).wf(),
        e.on_timeout().wf(),
        e.on_peer_failed(peer_id).wf(),
{
}

/// An announcement settles the leader slot whatever the state was: two
/// peers that took the same announcement hold the same leader.
pub proof fn lemma_announcement_is_agreed(a: ElectionView, b: ElectionView, leader_id: u32)
    ensures
        a.on_coordinator(leader_id).leader == b.on_coordinator(leader_id).leader,
        a.on_coordinator(leader_id).leader == Some(leader_id),
{
}

/// The answer alone decides a round: a peer that started a round and took
/// no answer wins it when its timer runs out, also where another peer was
/// announced in the meantime; it is the leader then and announces itself.
pub proof fn lemma_unanswered_round_is_won(e: ElectionView, announced: u32)
    ensures
        e.start().wins(),
        e.start().on_coordinator(announced).wins(),
        e.start().on_coordinator(announced).on_timeout().leader == Some(e.self_id),
        e.start().on_coordinator(announced).on_timeout().state == ElectionState::Leader,
{
}

/// An answer is kept whatever the state: one that follows an announcement
/// still loses the round.
pub proof fn lemma_answer_after_announcement_is_kept(e: ElectionView, announced: u32)
    ensures
        !e.start().on_coordinator(announced).on_alive().wins(),
        e.start().on_coordinator(announced).on_alive().on_timeout().leader == Some(announced),
{
}

/// A peer that heard of a better one during its round does not win it.
pub proof fn lemma_answered_call_is_lost(e: ElectionView)
    ensures
        !e.start().on_alive().wins(),
        e.start().on_alive().on_timeout() == e.start().on_alive(),
{
}

} // verus!
