//! The client side of a request: finding an assignee, running the task on
//! it, polling for a new assignee when it fails, and resubmitting a lost task.
//!
//! The coordinator of a request decides and nothing else. Its driver carries
//! out the action it is given (a broadcast, a connection, a pause) and
//! reports what came of it; an event that does not fit the phase the request
//! is in changes nothing.

use std::time::Duration;
use vstd::prelude::*;
use crate::config::ClientConfig;
use crate::encoder::{extract_bytes, spec_extract_bytes};
use crate::message::{Message, MessageView, answer_view, copy_bytes};
use crate::metrics::{ClientMetrics, RequestMetricView};

verus! {

/// Each connection attempt of a client may take this long, in seconds.
pub const CONNECTION_TIMEOUT_SECS: u64 = 5;

/// The pause between two rounds of asking, in seconds.
pub const POLL_INTERVAL_SECS: u64 = 2;

/// After this many status answers that still name the failed server, the client tries it again.
pub const MAX_SAME_SERVER_POLLS: u32 = 10;

/// After this many status rounds in a row without any answer, the task counts as lost.
pub const MAX_CONSECUTIVE_FAILURES: u32 = 10;

/// A request is resubmitted at most this many times.
pub const MAX_RESUBMISSION_ATTEMPTS: u32 = 3;

/// Why a request ended without a result.
#[derive(Debug, PartialEq, Eq)]
pub enum Failure {
    /// The encoder refused the payload; the text is what the server reported.
    Rejected(String),
    /// The task was lost once more than it may be resubmitted.
    ResubmissionsExhausted,
}

/// The model of a [`Failure`].
pub enum FailureView {
    Rejected(Seq<char>),
    ResubmissionsExhausted,
}

impl View for Failure {
    type V = FailureView;

    open spec fn view(&self) -> FailureView {
        match *self {
            Failure::Rejected(reason) => FailureView::Rejected(reason@),
            Failure::ResubmissionsExhausted => FailureView::ResubmissionsExhausted,
        }
    }
}

/// The classifier of a lost request that may not be resubmitted again.
pub open spec fn spec_exhausted_text() -> Seq<char> {
    "resubmissions_exhausted"@
}

impl Failure {
    /// The short text that stands for the failure in reports.
    pub fn classifier(&self) -> (text: String)
        ensures
            text@ == (match self@ {
                FailureView::Rejected(reason) => reason,
                FailureView::ResubmissionsExhausted => spec_exhausted_text(),
            }),
    {
        match self {
            Failure::Rejected(reason) => reason.clone(),
            Failure::ResubmissionsExhausted => "resubmissions_exhausted".to_owned(),
        }
    }
}

/// Where a request stands.
#[derive(Debug, PartialEq, Eq)]
pub enum Phase {
    /// Asking every server for an assignment.
    Discover,
    /// Running the task on the server at `address`.
    Execute { address: String, assigned_by: u32 },
    /// The server at `failed_address` failed; asking every server where the task is now.
    Poll { failed_address: String, same_count: u32, consecutive_failures: u32 },
    Succeeded,
    Failed,
}

/// The model of a [`Phase`].
pub enum PhaseView {
    Discover,
    Execute { address: Seq<char>, assigned_by: u32 },
    Poll { failed_address: Seq<char>, same_count: u32, consecutive_failures: u32 },
    Succeeded,
    Failed,
}

impl View for Phase {
    type V = PhaseView;

    open spec fn view(&self) -> PhaseView {
        match *self {
            Phase::Discover => PhaseView::Discover,
            Phase::Execute { address, assigned_by } => PhaseView::Execute { address: address@, assigned_by },
            Phase::Poll { failed_address, same_count, consecutive_failures } => PhaseView::Poll {
                failed_address: failed_address@,
                same_count,
                consecutive_failures,
            },
            Phase::Succeeded => PhaseView::Succeeded,
            Phase::Failed => PhaseView::Failed,
        }
    }
}

/// What came of a task that was sent to its assignee.
#[derive(Debug, PartialEq, Eq)]
pub enum TaskResult {
    /// The server answered with encoded bytes from which a payload can be recovered.
    Accepted { encoded: Vec<u8> },
    /// The server answered that the encoder refused the payload.
    Rejected { reason: String },
    /// No usable answer: the connection failed, something else came
    /// back, or nothing can be recovered from the bytes.
    Broken,
}

/// The model of a [`TaskResult`].
pub enum TaskResultView {
    Accepted { encoded: Seq<u8> },
    Rejected { reason: Seq<char> },
    Broken,
}

impl View for TaskResult {
    type V = TaskResultView;

    open spec fn view(&self) -> TaskResultView {
        match *self {
            TaskResult::Accepted { encoded } => TaskResultView::Accepted { encoded: encoded@ },
            TaskResult::Rejected { reason } => TaskResultView::Rejected { reason: reason@ },
            TaskResult::Broken => TaskResultView::Broken,
        }
    }
}

/// What the driver of a request has to do next.
#[derive(Debug, PartialEq, Eq)]
pub enum ClientAction {
    /// After the pause, send the message to every configured server at once,
    /// each attempt under the connection timeout, and report the answers in
    /// the order of the configured addresses with `on_assignment_round`.
    RequestAssignment { after_secs: u64, message: Message },
    /// Open a fresh connection to the address, send the message, wait for
    /// the answer and report it with `on_task_result`.
    SendTask { address: String, message: Message },
    /// After the pause, send the message to every configured server at once
    /// and report the answers with `on_status_round`.
    QueryStatus { after_secs: u64, message: Message },
    /// Send the acknowledgement on the connection of the task; the request
    /// has succeeded with the encoded bytes as its result.
    Finish { ack: Message, encoded: Vec<u8> },
    /// The request has failed for good.
    Fail { failure: Failure },
    /// The event did not fit the phase; there is nothing to do.
    Nothing,
}

/// The model of a [`ClientAction`].
pub enum ClientActionView {
    RequestAssignment { after_secs: u64, message: MessageView },
    SendTask { address: Seq<char>, message: MessageView },
    QueryStatus { after_secs: u64, message: MessageView },
    Finish { ack: MessageView, encoded: Seq<u8> },
    Fail { failure: FailureView },
    Nothing,
}

impl View for ClientAction {
    type V = ClientActionView;

    open spec fn view(&self) -> ClientActionView {
        match *self {
            ClientAction::RequestAssignment { after_secs, message } => ClientActionView::RequestAssignment {
                after_secs,
                message: message@,
            },
            ClientAction::SendTask { address, message } => ClientActionView::SendTask {
                address: address@,
                message: message@,
            },
            ClientAction::QueryStatus { after_secs, message } => ClientActionView::QueryStatus {
                after_secs,
                message: message@,
            },
            ClientAction::Finish { ack, encoded } => ClientActionView::Finish { ack: ack@, encoded: encoded@ },
            ClientAction::Fail { failure } => ClientActionView::Fail { failure: failure@ },
            ClientAction::Nothing => ClientActionView::Nothing,
        }
    }
}

/// An assignment as a client learns of it: the assignee, its address, and
/// the server that answered.
#[derive(Debug, PartialEq, Eq)]
pub struct Offer {
    pub server_id: u32,
    pub address: String,
    pub responder_id: u32,
}

/// The model of an [`Offer`].
pub struct OfferView {
    pub server_id: u32,
    pub address: Seq<char>,
    pub responder_id: u32,
}

impl View for Offer {
    type V = OfferView;

    open spec fn view(&self) -> OfferView {
        OfferView { server_id: self.server_id, address: self.address@, responder_id: self.responder_id }
    }
}

/// The model of one round of answers: one entry per configured address.
pub open spec fn answers_view(answers: Seq<Option<Message>>) -> Seq<Option<MessageView>> {
    answers.map_values(
        |a: Option<Message>|
            match a {
                Some(m) => Some(m@),
                None => None,
            },
    )
}

/// Whether the answer at index `i` is an assignment. The server at index
/// `i` has the id `i + 1`, so an index that gives no 32-bit id answers nothing.
pub open spec fn spec_is_assignment(answers: Seq<Option<MessageView>>, i: int) -> bool {
    0 <= i < answers.len() && i < u32::MAX && answers[i] matches Some(
        MessageView::TaskAssignmentResponse { .. },
    )
}

/// Whether the answer at index `i` is a task status.
pub open spec fn spec_is_status(answers: Seq<Option<MessageView>>, i: int) -> bool {
    0 <= i < answers.len() && i < u32::MAX && answers[i] matches Some(MessageView::TaskStatusResponse { .. })
}

/// The offer that the assignment at index `i` makes.
pub open spec fn spec_offer_at(answers: Seq<Option<MessageView>>, i: int) -> OfferView {
    match answers[i] {
        Some(MessageView::TaskAssignmentResponse { assigned_server_id, assigned_server_address, .. }) => OfferView {
            server_id: assigned_server_id,
            address: assigned_server_address,
            responder_id: (i + 1) as u32,
        },
        Some(MessageView::TaskStatusResponse { assigned_server_id, assigned_server_address, .. }) => OfferView {
            server_id: assigned_server_id,
            address: assigned_server_address,
            responder_id: (i + 1) as u32,
        },
        _ => OfferView { server_id: 0, address: Seq::empty(), responder_id: 0 },
    }
}

/// The first assignment among the answers, if there is one.
pub open spec fn spec_first_assignment(answers: Seq<Option<MessageView>>) -> Option<OfferView> {
    if exists|i: int| spec_is_assignment(answers, i) {
        let first = choose|i: int| spec_is_assignment(answers, i) && forall|j: int| 0 <= j < i ==> !spec_is_assignment(answers, j);
        Some(spec_offer_at(answers, first))
    } else {
        None
    }
}

/// The first task status among the answers, if there is one.
pub open spec fn spec_first_status(answers: Seq<Option<MessageView>>) -> Option<OfferView> {
    if exists|i: int| spec_is_status(answers, i) {
        let first = choose|i: int| spec_is_status(answers, i) && forall|j: int| 0 <= j < i ==> !spec_is_status(answers, j);
        Some(spec_offer_at(answers, first))
    } else {
        None
    }
}

/// The first assignment among the answers of one round.
pub fn first_assignment(answers: &Vec<Option<Message>>) -> (offer: Option<Offer>)
    ensures
        (match offer {
            Some(o) => Some(o@),
            None => None,
        }) == spec_first_assignment(answers_view(answers@)),
{
    let ghost all = answers_view(answers@);
    let mut i: usize = 0;
    while i < answers.len() && i < u32::MAX as usize
        invariant
            i <= answers@.len(),
            i <= u32::MAX,
            all == answers_view(answers@),
            forall|j: int| 0 <= j < i ==> !spec_is_assignment(all, j),
        decreases answers@.len() - i,
    {
        match &answers[i] {
            Some(Message::TaskAssignmentResponse { request_id, assigned_server_id, assigned_server_address }) => {
                let offer = Offer {
                    server_id: *assigned_server_id,
                    address: assigned_server_address.clone(),
                    responder_id: (i + 1) as u32,
                };
                proof {
                    let at = i as int;
                    assert(spec_is_assignment(all, at));
                    let first = choose|k: int|
                        spec_is_assignment(all, k) && forall|j: int| 0 <= j < k ==> !spec_is_assignment(all, j);
                    assert(first == at) by {
                        if first < at {
                            assert(!spec_is_assignment(all, first));
                        } else if at < first {
                            assert(!spec_is_assignment(all, at));
                        }
                    }
                }
                return Some(offer);
            },
            _ => {},
        }
        i += 1;
    }
    proof {
        assert forall|k: int| !spec_is_assignment(all, k) by {}
    }
    None
}

/// The first task status among the answers of one round.
pub fn first_status(answers: &Vec<Option<Message>>) -> (offer: Option<Offer>)
    ensures
        (match offer {
            Some(o) => Some(o@),
            None => None,
        }) == spec_first_status(answers_view(answers@)),
{
    let ghost all = answers_view(answers@);
    let mut i: usize = 0;
    while i < answers.len() && i < u32::MAX as usize
        invariant
            i <= answers@.len(),
            i <= u32::MAX,
            all == answers_view(answers@),
            forall|j: int| 0 <= j < i ==> !spec_is_status(all, j),
        decreases answers@.len() - i,
    {
        match &answers[i] {
            Some(Message::TaskStatusResponse { request_id, assigned_server_id, assigned_server_address }) => {
                let offer = Offer {
                    server_id: *assigned_server_id,
                    address: assigned_server_address.clone(),
                    responder_id: (i + 1) as u32,
                };
                proof {
                    let at = i as int;
                    assert(spec_is_status(all, at));
                    let first = choose|k: int|
                        spec_is_status(all, k) && forall|j: int| 0 <= j < k ==> !spec_is_status(all, j);
                    assert(first == at) by {
                        if first < at {
                            assert(!spec_is_status(all, first));
                        } else if at < first {
                            assert(!spec_is_status(all, at));
                        }
                    }
                }
                return Some(offer);
            },
            _ => {},
        }
        i += 1;
    }
    proof {
        assert forall|k: int| !spec_is_status(all, k) by {}
    }
    None
}

/// The model of a [`RequestCoordinator`].
pub struct RequestView {
    pub client_name: Seq<char>,
    pub request_id: u64,
    pub secret: Seq<u8>,
    pub phase: PhaseView,
    /// How often the request was resubmitted after its task was lost.
    pub resubmissions: u32,
    /// The server that the request was last sent to.
    pub assignee: Option<u32>,
}

impl RequestView {
    /// The counters stay below the bounds at which the request leaves its phase.
    pub open spec fn wf(self) -> bool {
        &&& self.resubmissions <= MAX_RESUBMISSION_ATTEMPTS + 1
        &&& !(self.phase is Failed) ==> self.resubmissions <= MAX_RESUBMISSION_ATTEMPTS
        &&& self.phase matches PhaseView::Poll { same_count, consecutive_failures, .. } ==> same_count
            < MAX_SAME_SERVER_POLLS && consecutive_failures < MAX_CONSECUTIVE_FAILURES
    }

    pub open spec fn assignment_request(self) -> MessageView {
        MessageView::TaskAssignmentRequest { client_name: self.client_name, request_id: self.request_id }
    }

    pub open spec fn task_request(self, assigned_by: u32) -> MessageView {
        MessageView::TaskRequest {
            client_name: self.client_name,
            request_id: self.request_id,
            secret_image_data: self.secret,
            assigned_by_leader: assigned_by,
        }
    }

    pub open spec fn status_query(self) -> MessageView {
        MessageView::TaskStatusQuery { client_name: self.client_name, request_id: self.request_id }
    }

    pub open spec fn ack(self) -> MessageView {
        MessageView::TaskAck { client_name: self.client_name, request_id: self.request_id }
    }

    /// A request that has just been submitted.
    pub open spec fn initial(client_name: Seq<char>, request_id: u64, secret: Seq<u8>) -> RequestView {
        RequestView {
            client_name,
            request_id,
            secret,
            phase: PhaseView::Discover,
            resubmissions: 0,
            assignee: None,
        }
    }

    /// The request goes to server `server_id` at `address`.
    pub open spec fn execute(self, server_id: u32, address: Seq<char>, assigned_by: u32) -> (
        RequestView,
        ClientActionView,
    ) {
        (
            RequestView { phase: PhaseView::Execute { address, assigned_by }, assignee: Some(server_id), ..self },
            ClientActionView::SendTask { address, message: self.task_request(assigned_by) },
        )
    }

    /// One round of assignment answers came back.
    pub open spec fn on_assignment_round(self, answers: Seq<Option<MessageView>>) -> (RequestView, ClientActionView) {
        if self.phase is Discover {
            match spec_first_assignment(answers) {
                Some(offer) => self.execute(offer.server_id, offer.address, offer.responder_id),
                None => (
                    self,
                    ClientActionView::RequestAssignment {
                        after_secs: POLL_INTERVAL_SECS,
                        message: self.assignment_request(),
                    },
                ),
            }
        } else {
            (self, ClientActionView::Nothing)
        }
    }

    /// The task that was sent to the assignee came to an end.
    pub open spec fn on_task_result(self, result: TaskResultView) -> (RequestView, ClientActionView) {
        match self.phase {
            PhaseView::Execute { address, .. } => match result {
                TaskResultView::Accepted { encoded } => (
                    RequestView { phase: PhaseView::Succeeded, ..self },
                    ClientActionView::Finish { ack: self.ack(), encoded },
                ),
                TaskResultView::Rejected { reason } => (
                    RequestView { phase: PhaseView::Failed, ..self },
                    ClientActionView::Fail { failure: FailureView::Rejected(reason) },
                ),
                TaskResultView::Broken => (
                    RequestView {
                        phase: PhaseView::Poll { failed_address: address, same_count: 0, consecutive_failures: 0 },
                        ..self
                    },
                    ClientActionView::QueryStatus { after_secs: 0, message: self.status_query() },
                ),
            },
            _ => (self, ClientActionView::Nothing),
        }
    }

    /// The task is lost: the request is resubmitted, unless it has been so too often.
    pub open spec fn resubmit(self) -> (RequestView, ClientActionView) {
        let attempts = (self.resubmissions + 1) as u32;
        if attempts > MAX_RESUBMISSION_ATTEMPTS {
            (
                RequestView { phase: PhaseView::Failed, resubmissions: attempts, ..self },
                ClientActionView::Fail { failure: FailureView::ResubmissionsExhausted },
            )
        } else {
            (
                RequestView { phase: PhaseView::Discover, resubmissions: attempts, ..self },
                ClientActionView::RequestAssignment { after_secs: 0, message: self.assignment_request() },
            )
        }
    }

    /// One round of status answers came back.
    pub open spec fn on_status_round(self, answers: Seq<Option<MessageView>>) -> (RequestView, ClientActionView) {
        match self.phase {
            PhaseView::Poll { failed_address, same_count, consecutive_failures } => match spec_first_status(answers) {
                Some(offer) => {
                    if offer.address != failed_address || same_count + 1 >= MAX_SAME_SERVER_POLLS {
                        self.execute(offer.server_id, offer.address, offer.server_id)
                    } else {
                        (
                            RequestView {
                                phase: PhaseView::Poll {
                                    failed_address,
                                    same_count: (same_count + 1) as u32,
                                    consecutive_failures: 0,
                                },
                                ..self
                            },
                            ClientActionView::QueryStatus {
                                after_secs: POLL_INTERVAL_SECS,
                                message: self.status_query(),
                            },
                        )
                    }
                },
                None => {
                    if consecutive_failures + 1 >= MAX_CONSECUTIVE_FAILURES {
                        self.resubmit()
                    } else {
                        (
                            RequestView {
                                phase: PhaseView::Poll {
                                    failed_address,
                                    same_count,
                                    consecutive_failures: (consecutive_failures + 1) as u32,
                                },
                                ..self
                            },
                            ClientActionView::QueryStatus {
                                after_secs: POLL_INTERVAL_SECS,
                                message: self.status_query(),
                            },
                        )
                    }
                },
            },
            _ => (self, ClientActionView::Nothing),
        }
    }
}

/// The coordinator of one request of a client.
pub struct RequestCoordinator {
    client_name: String,
    request_id: u64,
    secret: Vec<u8>,
    phase: Phase,
    resubmissions: u32,
    assignee: Option<u32>,
}

impl View for RequestCoordinator {
    type V = RequestView;

    closed spec fn view(&self) -> RequestView {
        RequestView {
            client_name: self.client_name@,
            request_id: self.request_id,
            secret: self.secret@,
            phase: self.phase@,
            resubmissions: self.resubmissions,
            assignee: self.assignee,
        }
    }
}

impl RequestCoordinator {
    /// Submits a request: the coordinator and its first action, the first round of asking for an assignment.
    pub fn submit(client_name: String, request_id: u64, secret: Vec<u8>) -> (started: (Self, ClientAction))
        ensures
            started.0@ == RequestView::initial(client_name@, request_id, secret@),
            started.0@.wf(),
            started.1@ == (ClientActionView::RequestAssignment {
                after_secs: 0,
                message: started.0@.assignment_request(),
            }),
    {
        let message = Message::TaskAssignmentRequest { client_name: client_name.clone(), request_id };
        let coordinator = RequestCoordinator {
            client_name,
            request_id,
            secret,
            phase: Phase::Discover,
            resubmissions: 0,
            assignee: None,
        };
        (coordinator, ClientAction::RequestAssignment { after_secs: 0, message })
    }

    pub fn request_id(&self) -> (id: u64)
        ensures
            id == self@.request_id,
    {
        self.request_id
    }

    /// How often the request was resubmitted.
    pub fn resubmissions(&self) -> (n: u32)
        ensures
            n == self@.resubmissions,
    {
        self.resubmissions
    }

    /// The server that the request was last sent to.
    pub fn assignee(&self) -> (id: Option<u32>)
        ensures
            id == self@.assignee,
    {
        self.assignee
    }

    /// Whether the request has ended with a result.
    pub fn has_succeeded(&self) -> (done: bool)
        ensures
            done == (self@.phase is Succeeded),
    {
        match self.phase {
            Phase::Succeeded => true,
            _ => false,
        }
    }

    /// Whether the request has ended, with or without a result.
    pub fn is_finished(&self) -> (done: bool)
        ensures
            done == (self@.phase is Succeeded || self@.phase is Failed),
    {
        match self.phase {
            Phase::Succeeded => true,
            Phase::Failed => true,
            _ => false,
        }
    }

    /// Whether the request waits for the outcome of a task on its assignee.
    pub fn is_executing(&self) -> (executing: bool)
        ensures
            executing == (self@.phase is Execute),
    {
        match self.phase {
            Phase::Execute { .. } => true,
            _ => false,
        }
    }

    fn assignment_request(&self) -> (message: Message)
        ensures
            message@ == self@.assignment_request(),
    {
        Message::TaskAssignmentRequest { client_name: self.client_name.clone(), request_id: self.request_id }
    }

    fn status_query(&self) -> (message: Message)
        ensures
            message@ == self@.status_query(),
    {
        Message::TaskStatusQuery { client_name: self.client_name.clone(), request_id: self.request_id }
    }

    fn execute(&mut self, server_id: u32, address: String, assigned_by: u32) -> (action: ClientAction)
        requires
            old(self)@.wf(),
            !(old(self)@.phase is Failed),
        ensures
            final(self)@ == old(self)@.execute(server_id, address@, assigned_by).0,
            action@ == old(self)@.execute(server_id, address@, assigned_by).1,
            final(self)@.wf(),
    {
        let message = Message::TaskRequest {
            client_name: self.client_name.clone(),
            request_id: self.request_id,
            secret_image_data: copy_bytes(&self.secret),
            assigned_by_leader: assigned_by,
        };
        self.phase = Phase::Execute { address: address.clone(), assigned_by };
        self.assignee = Some(server_id);
        ClientAction::SendTask { address, message }
    }

    /// The answers of one round of asking for an assignment, one per
    /// configured address and in that order; `None` where nothing usable came back.
    pub fn on_assignment_round(&mut self, answers: &Vec<Option<Message>>) -> (action: ClientAction)
        requires
            old(self)@.wf(),
        ensures
            final(self)@ == old(self)@.on_assignment_round(answers_view(answers@)).0,
            action@ == old(self)@.on_assignment_round(answers_view(answers@)).1,
            final(self)@.wf(),
    {
        match self.phase {
            Phase::Discover => {
                match first_assignment(answers) {
                    Some(offer) => self.execute(offer.server_id, offer.address, offer.responder_id),
                    None => ClientAction::RequestAssignment {
                        after_secs: POLL_INTERVAL_SECS,
                        message: self.assignment_request(),
                    },
                }
            },
            _ => ClientAction::Nothing,
        }
    }

    /// What came of the task that was sent to the assignee.
    pub fn on_task_result(&mut self, result: TaskResult) -> (action: ClientAction)
        requires
            old(self)@.wf(),
        ensures
            final(self)@ == old(self)@.on_task_result(result@).0,
            action@ == old(self)@.on_task_result(result@).1,
            final(self)@.wf(),
    {
        let failed_address = match &self.phase {
            Phase::Execute { address, assigned_by } => address.clone(),
            _ => {
                return ClientAction::Nothing;
            },
        };
        match result {
            TaskResult::Accepted { encoded } => {
                self.phase = Phase::Succeeded;
                ClientAction::Finish {
                    ack: Message::TaskAck { client_name: self.client_name.clone(), request_id: self.request_id },
                    encoded,
                }
            },
            TaskResult::Rejected { reason } => {
                self.phase = Phase::Failed;
                ClientAction::Fail { failure: Failure::Rejected(reason) }
            },
            TaskResult::Broken => {
                self.phase = Phase::Poll { failed_address, same_count: 0, consecutive_failures: 0 };
                ClientAction::QueryStatus { after_secs: 0, message: self.status_query() }
            },
        }
    }

    /// The answers of one round of asking where the task is, one per
    /// configured address and in that order.
    pub fn on_status_round(&mut self, answers: &Vec<Option<Message>>) -> (action: ClientAction)
        requires
            old(self)@.wf(),
        ensures
            final(self)@ == old(self)@.on_status_round(answers_view(answers@)).0,
            action@ == old(self)@.on_status_round(answers_view(answers@)).1,
            final(self)@.wf(),
    {
        let (failed_address, same_count, consecutive_failures) = match &self.phase {
            Phase::Poll { failed_address, same_count, consecutive_failures } => (
                failed_address.clone(),
                *same_count,
                *consecutive_failures,
            ),
            _ => {
                return ClientAction::Nothing;
            },
        };
        match first_status(answers) {
            Some(offer) => {
                if offer.address != failed_address || same_count + 1 >= MAX_SAME_SERVER_POLLS {
                    self.execute(offer.server_id, offer.address, offer.server_id)
                } else {
                    self.phase = Phase::Poll { failed_address, same_count: same_count + 1, consecutive_failures: 0 };
                    ClientAction::QueryStatus { after_secs: POLL_INTERVAL_SECS, message: self.status_query() }
                }
            },
            None => {
                if consecutive_failures + 1 >= MAX_CONSECUTIVE_FAILURES {
                    let message = self.assignment_request();
                    self.resubmissions = self.resubmissions + 1;
                    if self.resubmissions > MAX_RESUBMISSION_ATTEMPTS {
                        self.phase = Phase::Failed;
                        ClientAction::Fail { failure: Failure::ResubmissionsExhausted }
                    } else {
                        self.phase = Phase::Discover;
                        ClientAction::RequestAssignment { after_secs: 0, message }
                    }
                } else {
                    self.phase = Phase::Poll {
                        failed_address,
                        same_count,
                        consecutive_failures: consecutive_failures + 1,
                    };
                    ClientAction::QueryStatus { after_secs: POLL_INTERVAL_SECS, message: self.status_query() }
                }
            },
        }
    }
}

/// The reason that stands for a refusal without a message.
pub open spec fn spec_unknown_reason() -> Seq<char> {
    "Unknown error"@
}

/// What to make of the answer to a task, given whether a payload can be
/// recovered from the bytes it carries.
pub open spec fn spec_judge(answer: Option<MessageView>, recoverable: bool) -> TaskResultView {
    match answer {
        Some(MessageView::TaskResponse { encrypted_image_data, success, error_message, .. }) => {
            if !success {
                TaskResultView::Rejected {
                    reason: match error_message {
                        Some(text) => text,
                        None => spec_unknown_reason(),
                    },
                }
            } else if recoverable {
                TaskResultView::Accepted { encoded: encrypted_image_data }
            } else {
                TaskResultView::Broken
            }
        },
        _ => TaskResultView::Broken,
    }
}

/// Whether the answer to a task reports success and carries bytes from
/// which a payload that is not empty can be recovered.
pub open spec fn spec_recoverable(answer: Option<MessageView>) -> bool {
    match answer {
        Some(MessageView::TaskResponse { encrypted_image_data, success, .. }) => success && (spec_extract_bytes(
            encrypted_image_data,
        ) matches Ok(payload) && payload.len() > 0),
        _ => false,
    }
}

/// Judges the answer to a task: `answer` is what came back on the
/// connection, `None` for a connection that failed; `recoverable` says
/// whether a payload that is not empty can be recovered from its bytes.
pub fn judge_response(answer: Option<Message>, recoverable: bool) -> (result: TaskResult)
    ensures
        result@ == spec_judge(answer_view(answer), recoverable),
{
    match answer {
        Some(Message::TaskResponse { request_id, encrypted_image_data, success, error_message }) => {
            if !success {
                TaskResult::Rejected {
                    reason: match error_message {
                        Some(text) => text,
                        None => "Unknown error".to_owned(),
                    },
                }
            } else if recoverable {
                TaskResult::Accepted { encoded: encrypted_image_data }
            } else {
                TaskResult::Broken
            }
        },
        _ => TaskResult::Broken,
    }
}

/// The part of a client that talks to one server about one task.
pub struct ClientCore {
    client_name: String,
}

impl ClientCore {
    /// The name of the client.
    pub closed spec fn name(&self) -> Seq<char> {
        self.client_name@
    }

    pub fn new(client_name: String) -> (core: Self)
        ensures
            core.name() == client_name@,
    {
        ClientCore { client_name }
    }

    pub fn client_name(&self) -> (name: String)
        ensures
            name@ == self.name(),
    {
        self.client_name.clone()
    }

    /// Judges the answer to a task. The bytes of an answer that reports
    /// success are put to the test first: they are decoded, and a payload
    /// that is not empty must come out of them.
    pub fn check_response(&self, answer: Option<Message>) -> (result: TaskResult)
        ensures
            result@ == spec_judge(answer_view(answer), spec_recoverable(answer_view(answer))),
    {
        let recoverable = match &answer {
            Some(Message::TaskResponse { request_id, encrypted_image_data, success, error_message }) => {
                if *success {
                    match extract_bytes(encrypted_image_data.as_slice()) {
                        Ok(secret) => secret.len() > 0,
                        Err(_) => false,
                    }
                } else {
                    false
                }
            },
            _ => false,
        };
        judge_response(answer, recoverable)
    }
}

/// A client: its configuration, its core, and the record it keeps if it was given one.
pub struct ClientMiddleware {
    config: ClientConfig,
    core: ClientCore,
    metrics: Option<ClientMetrics>,
}

impl ClientMiddleware {
    /// The name under which requests are made.
    pub closed spec fn name(&self) -> Seq<char> {
        self.core.name()
    }

    /// The records kept so far; `None` for a client that keeps no record.
    pub closed spec fn records(&self) -> Option<Seq<RequestMetricView>> {
        match self.metrics {
            Some(metrics) => Some(metrics.records()),
            None => None,
        }
    }

    /// The addresses of the configured servers, in peer-id order.
    pub closed spec fn addresses(&self) -> Seq<Seq<char>> {
        self.config.client.server_addresses@.map_values(|a: String| a@)
    }

    /// The number of configured servers.
    pub open spec fn spec_server_count(&self) -> nat {
        self.addresses().len()
    }

    /// The configuration that the client was made with.
    pub closed spec fn spec_config(&self) -> ClientConfig {
        self.config
    }

    /// A client that keeps no record.
    pub fn new(config: ClientConfig, core: ClientCore) -> (client: Self)
        ensures
            client.name() == core.name(),
            client.records() is None,
            client.spec_config() == config,
            client.addresses() == config.client.server_addresses@.map_values(|a: String| a@),
    {
        ClientMiddleware { config, core, metrics: None }
    }

    /// The same client, keeping its record in `metrics`.
    pub fn with_metrics(self, metrics: ClientMetrics) -> (client: Self)
        ensures
            client.name() == self.name(),
            client.records() == Some(metrics.records()),
            client.spec_config() == self.spec_config(),
            client.addresses() == self.addresses(),
    {
        ClientMiddleware { config: self.config, core: self.core, metrics: Some(metrics) }
    }

    /// The number of configured servers.
    pub fn server_count(&self) -> (n: usize)
        ensures
            n == self.spec_server_count(),
    {
        self.config.client.server_addresses.len()
    }

    /// The address of the server at `index` of the configuration.
    pub fn server_address(&self, index: usize) -> (address: Option<String>)
        ensures
            match address {
                Some(a) => index < self.addresses().len() && a@ == self.addresses()[index as int],
                None => index >= self.addresses().len(),
            },
    {
        if index < self.config.client.server_addresses.len() {
            Some(self.config.client.server_addresses[index].clone())
        } else {
            None
        }
    }

    /// The configuration that the client was made with.
    pub fn config(&self) -> (config: &ClientConfig)
        ensures
            *config == self.spec_config(),
    {
        &self.config
    }

    /// The record, if the client keeps one.
    pub fn metrics(&self) -> (metrics: Option<&ClientMetrics>)
        ensures
            match metrics {
                Some(m) => self.records() == Some(m.records()),
                None => self.records() is None,
            },
    {
        self.metrics.as_ref()
    }

    /// Submits a request under the name of this client.
    pub fn submit_task(&self, request_id: u64, secret_image_data: Vec<u8>) -> (started: (
        RequestCoordinator,
        ClientAction,
    ))
        ensures
            started.0@ == RequestView::initial(self.name(), request_id, secret_image_data@),
            started.0@.wf(),
            started.1@ == (ClientActionView::RequestAssignment {
                after_secs: 0,
                message: started.0@.assignment_request(),
            }),
    {
        RequestCoordinator::submit(self.core.client_name(), request_id, secret_image_data)
    }

    /// Judges the answer to a task; see [`ClientCore::check_response`].
    pub fn check_response(&self, answer: Option<Message>) -> (result: TaskResult)
        ensures
            result@ == spec_judge(answer_view(answer), spec_recoverable(answer_view(answer))),
    {
        self.core.check_response(answer)
    }

    /// Records the end of a request, where the client keeps a record: one
    /// entry for a request that has ended, with the classifier of `failure`
    /// as the reason of one that failed; nothing for a request that is
    /// still under way.
    pub fn record_outcome(&mut self, request: &RequestCoordinator, latency: Duration, failure: Option<&Failure>)
        ensures
            final(self).name() == old(self).name(),
            final(self).spec_config() == old(self).spec_config(),
            final(self).addresses() == old(self).addresses(),
            match old(self).records() {
                None => final(self).records() is None,
                Some(before) => final(self).records() is Some && (if request@.phase is Succeeded || request@.phase
                    is Failed {
                    let after = final(self).records()->0;
                    &&& after.len() == before.len() + 1
                    &&& after.drop_last() == before
                    &&& after.last().request_id == request@.request_id
                    &&& after.last().success == (request@.phase is Succeeded)
                    &&& after.last().assigned_server_id == request@.assignee
                    &&& after.last().failure_reason == (if request@.phase is Succeeded {
                        None
                    } else {
                        match failure {
                            Some(f) => Some(
                                match f@ {
                                    FailureView::Rejected(reason) => reason,
                                    FailureView::ResubmissionsExhausted => spec_exhausted_text(),
                                },
                            ),
                            None => None,
                        }
                    })
                } else {
                    final(self).records() == Some(before)
                }),
            },
    {
        if !request.is_finished() {
            return ;
        }
        let success = request.has_succeeded();
        let reason: Option<String> = if success {
            None
        } else {
            match failure {
                Some(f) => Some(f.classifier()),
                None => None,
            }
        };
        match self.metrics.take() {
            Some(mut metrics) => {
                metrics.record_request(request.request_id(), latency, success, reason, request.assignee());
                self.metrics = Some(metrics);
            },
            None => {},
        }
    }
}

/// How many more status rounds a polling request can take at most before it
/// leaves the polling phase; 0 for a request that is not polling.
pub open spec fn spec_poll_budget(phase: PhaseView) -> nat {
    match phase {
        PhaseView::Poll { same_count, consecutive_failures, .. } => ((MAX_SAME_SERVER_POLLS - same_count)
            * MAX_CONSECUTIVE_FAILURES + (MAX_CONSECUTIVE_FAILURES - consecutive_failures)) as nat,
        _ => 0,
    }
}

/// Polling is bounded: a status round either takes the request out of the
/// polling phase or lowers what is left of its budget, whatever the answers.
pub proof fn lemma_polling_is_bounded(request: RequestView, answers: Seq<Option<MessageView>>)
    requires
        request.wf(),
        request.phase is Poll,
    ensures
        ({
            let next = request.on_status_round(answers).0;
            next.phase is Poll ==> spec_poll_budget(next.phase) < spec_poll_budget(request.phase)
        }),
        spec_poll_budget(request.phase) <= MAX_SAME_SERVER_POLLS * MAX_CONSECUTIVE_FAILURES + MAX_CONSECUTIVE_FAILURES,
{
}

/// Every transition keeps the counters of a request within their bounds,
/// and a request is never resubmitted more than three times.
pub proof fn lemma_transitions_keep_bounds(
    request: RequestView,
    answers: Seq<Option<MessageView>>,
    result: TaskResultView,
)
    requires
        request.wf(),
    ensures
        request.on_assignment_round(answers).0.wf(),
        request.on_task_result(result).0.wf(),
        request.on_status_round(answers).0.wf(),
        request.on_status_round(answers).0.phase is Discover ==> request.on_status_round(answers).0.resubmissions
            <= MAX_RESUBMISSION_ATTEMPTS,
{
}

/// A request that has ended stays as it is: no event moves it and none asks anything of the driver.
pub proof fn lemma_ended_request_stays(request: RequestView, answers: Seq<Option<MessageView>>, result: TaskResultView)
    requires
        request.phase is Succeeded || request.phase is Failed,
    ensures
        request.on_assignment_round(answers) == (request, ClientActionView::Nothing),
        request.on_task_result(result) == (request, ClientActionView::Nothing),
        request.on_status_round(answers) == (request, ClientActionView::Nothing),
{
}

/// A payload that the encoder refused ends the request at once: it is
/// neither sent to another server nor submitted again.
pub proof fn lemma_rejection_is_final(request: RequestView, reason: Seq<char>)
    requires
        request.phase is Execute,
    ensures
        request.on_task_result(TaskResultView::Rejected { reason }).0.phase is Failed,
        request.on_task_result(TaskResultView::Rejected { reason }).0.resubmissions == request.resubmissions,
        request.on_task_result(TaskResultView::Rejected { reason }).1 == (ClientActionView::Fail {
            failure: FailureView::Rejected(reason),
        }),
{
}

} // verus!
