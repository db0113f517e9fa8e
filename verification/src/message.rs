//! The messages that peers and clients exchange.
//!
//! Loads and priorities travel as load scores (see [`crate::load`]). How a
//! message is laid out inside a frame is not decided here.

use vstd::prelude::*;
use crate::load::LoadScore;

verus! {

/// One row of a ledger snapshot: client name, request id, assignee, timestamp.
pub type HistoryRow = (String, u64, u32, u64);

/// Every message of the protocol.
#[derive(Debug, PartialEq, Eq)]
pub enum Message {
    /// A peer starts an election round with its load as priority; lower is better.
    Election { from_id: u32, priority: LoadScore },
    /// A better peer answers an election call.
    Alive { from_id: u32 },
    /// The winner of a round announces itself.
    Coordinator { leader_id: u32 },
    /// Periodic sign of life, with the load of the sender.
    Heartbeat { from_id: u32, timestamp: u64, load: LoadScore },
    /// A client asks who the leader is.
    LeaderQuery,
    LeaderResponse { leader_id: u32 },
    /// A client asks the leader which server should run its request.
    TaskAssignmentRequest { client_name: String, request_id: u64 },
    TaskAssignmentResponse { request_id: u64, assigned_server_id: u32, assigned_server_address: String },
    /// A client hands its payload to the assigned server.
    TaskRequest { client_name: String, request_id: u64, secret_image_data: Vec<u8>, assigned_by_leader: u32 },
    TaskResponse { request_id: u64, encrypted_image_data: Vec<u8>, success: bool, error_message: Option<String> },
    /// A client confirms that it has the result.
    TaskAck { client_name: String, request_id: u64 },
    /// A client asks where a request of its own is assigned now.
    TaskStatusQuery { client_name: String, request_id: u64 },
    TaskStatusResponse { request_id: u64, assigned_server_id: u32, assigned_server_address: String },
    /// The leader replicates a ledger entry.
    HistoryAdd { client_name: String, request_id: u64, assigned_server_id: u32, timestamp: u64 },
    /// The assignee replicates the removal of a ledger entry.
    HistoryRemove { client_name: String, request_id: u64 },
    HistorySyncRequest { from_server_id: u32 },
    HistorySyncResponse { from_server_id: u32, history_entries: Vec<HistoryRow> },
}

/// The model of a [`Message`].
pub enum MessageView {
    Election { from_id: u32, priority: LoadScore },
    Alive { from_id: u32 },
    Coordinator { leader_id: u32 },
    Heartbeat { from_id: u32, timestamp: u64, load: LoadScore },
    LeaderQuery,
    LeaderResponse { leader_id: u32 },
    TaskAssignmentRequest { client_name: Seq<char>, request_id: u64 },
    TaskAssignmentResponse { request_id: u64, assigned_server_id: u32, assigned_server_address: Seq<char> },
    TaskRequest { client_name: Seq<char>, request_id: u64, secret_image_data: Seq<u8>, assigned_by_leader: u32 },
    TaskResponse { request_id: u64, encrypted_image_data: Seq<u8>, success: bool, error_message: Option<Seq<char>> },
    TaskAck { client_name: Seq<char>, request_id: u64 },
    TaskStatusQuery { client_name: Seq<char>, request_id: u64 },
    TaskStatusResponse { request_id: u64, assigned_server_id: u32, assigned_server_address: Seq<char> },
    HistoryAdd { client_name: Seq<char>, request_id: u64, assigned_server_id: u32, timestamp: u64 },
    HistoryRemove { client_name: Seq<char>, request_id: u64 },
    HistorySyncRequest { from_server_id: u32 },
    HistorySyncResponse { from_server_id: u32, history_entries: Seq<(Seq<char>, u64, u32, u64)> },
}

/// The model of an optional string.
pub open spec fn option_string_view(s: Option<String>) -> Option<Seq<char>> {
    match s {
        Some(text) => Some(text@),
        None => None,
    }
}

/// The model of a message that may be missing.
pub open spec fn answer_view(answer: Option<Message>) -> Option<MessageView> {
    match answer {
        Some(m) => Some(m@),
        None => None,
    }
}

/// The model of a ledger snapshot.
pub open spec fn history_rows_view(rows: Seq<HistoryRow>) -> Seq<(Seq<char>, u64, u32, u64)> {
    rows.map_values(|row: HistoryRow| (row.0@, row.1, row.2, row.3))
}

impl View for Message {
    type V = MessageView;

    open spec fn view(&self) -> MessageView {
        match *self {
            Message::Election { from_id, priority } => MessageView::Election { from_id, priority },
            Message::Alive { from_id } => MessageView::Alive { from_id },
            Message::Coordinator { leader_id } => MessageView::Coordinator { leader_id },
            Message::Heartbeat { from_id, timestamp, load } => MessageView::Heartbeat { from_id, timestamp, load },
            Message::LeaderQuery => MessageView::LeaderQuery,
            Message::LeaderResponse { leader_id } => MessageView::LeaderResponse { leader_id },
            Message::TaskAssignmentRequest { client_name, request_id } => MessageView::TaskAssignmentRequest {
                client_name: client_name@,
                request_id,
            },
            Message::TaskAssignmentResponse {
                request_id,
                assigned_server_id,
                assigned_server_address,
            } => MessageView::TaskAssignmentResponse {
                request_id,
                assigned_server_id,
                assigned_server_address: assigned_server_address@,
            },
            Message::TaskRequest {
                client_name,
                request_id,
                secret_image_data,
                assigned_by_leader,
            } => MessageView::TaskRequest {
                client_name: client_name@,
                request_id,
                secret_image_data: secret_image_data@,
                assigned_by_leader,
            },
            Message::TaskResponse {
                request_id,
                encrypted_image_data,
                success,
                error_message,
            } => MessageView::TaskResponse {
                request_id,
                encrypted_image_data: encrypted_image_data@,
                success,
                error_message: option_string_view(error_message),
            },
            Message::TaskAck { client_name, request_id } => MessageView::TaskAck {
                client_name: client_name@,
                request_id,
            },
            Message::TaskStatusQuery { client_name, request_id } => MessageView::TaskStatusQuery {
                client_name: client_name@,
                request_id,
            },
            Message::TaskStatusResponse {
                request_id,
                assigned_server_id,
                assigned_server_address,
            } => MessageView::TaskStatusResponse {
                request_id,
                assigned_server_id,
                assigned_server_address: assigned_server_address@,
            },
            Message::HistoryAdd {
                client_name,
                request_id,
                assigned_server_id,
                timestamp,
            } => MessageView::HistoryAdd { client_name: client_name@, request_id, assigned_server_id, timestamp },
            Message::HistoryRemove { client_name, request_id } => MessageView::HistoryRemove {
                client_name: client_name@,
                request_id,
            },
            Message::HistorySyncRequest { from_server_id } => MessageView::HistorySyncRequest { from_server_id },
            Message::HistorySyncResponse { from_server_id, history_entries } => MessageView::HistorySyncResponse {
                from_server_id,
                history_entries: history_rows_view(history_entries@),
            },
        }
    }
}

/// A copy of a byte string.
pub fn copy_bytes(bytes: &Vec<u8>) -> (copy: Vec<u8>)
    ensures
        copy@ == bytes@,
{
    let mut copy: Vec<u8> = Vec::new();
    let mut i: usize = 0;
    while i < bytes.len()
        invariant
            i <= bytes@.len(),
            copy@ == bytes@.subrange(0, i as int),
        decreases bytes@.len() - i,
    {
        copy.push(bytes[i]);
        assert(copy@ =~= bytes@.subrange(0, i + 1));
        i += 1;
    }
    assert(bytes@.subrange(0, bytes@.len() as int) =~= bytes@);
    copy
}

/// A copy of an optional string.
pub fn copy_option_string(text: &Option<String>) -> (copy: Option<String>)
    ensures
        option_string_view(copy) == option_string_view(*text),
{
    match text {
        Some(s) => Some(s.clone()),
        None => None,
    }
}

/// A copy of a ledger snapshot.
pub fn copy_history_rows(rows: &Vec<HistoryRow>) -> (copy: Vec<HistoryRow>)
    ensures
        history_rows_view(copy@) == history_rows_view(rows@),
{
    let mut copy: Vec<HistoryRow> = Vec::new();
    let mut i: usize = 0;
    while i < rows.len()
        invariant
            i <= rows@.len(),
            copy@.len() == i,
            forall|j: int|
                0 <= j < i ==> (#[trigger] copy@[j]).0@ == rows@[j].0@ && copy@[j].1 == rows@[j].1 && copy@[j].2
                    == rows@[j].2 && copy@[j].3 == rows@[j].3,
        decreases rows@.len() - i,
    {
        let row = &rows[i];
        copy.push((row.0.clone(), row.1, row.2, row.3));
        i += 1;
    }
    assert(history_rows_view(copy@) =~= history_rows_view(rows@));
    copy
}

impl Clone for Message {
    fn clone(&self) -> (copy: Self)
        ensures
            copy@ == self@,
    {
        match self {
            Message::Election { from_id, priority } => Message::Election { from_id: *from_id, priority: *priority },
            Message::Alive { from_id } => Message::Alive { from_id: *from_id },
            Message::Coordinator { leader_id } => Message::Coordinator { leader_id: *leader_id },
            Message::Heartbeat { from_id, timestamp, load } => Message::Heartbeat {
                from_id: *from_id,
                timestamp: *timestamp,
                load: *load,
            },
            Message::LeaderQuery => Message::LeaderQuery,
            Message::LeaderResponse { leader_id } => Message::LeaderResponse { leader_id: *leader_id },
            Message::TaskAssignmentRequest { client_name, request_id } => Message::TaskAssignmentRequest {
                client_name: client_name.clone(),
                request_id: *request_id,
            },
            Message::TaskAssignmentResponse {
                request_id,
                assigned_server_id,
                assigned_server_address,
            } => Message::TaskAssignmentResponse {
                request_id: *request_id,
                assigned_server_id: *assigned_server_id,
                assigned_server_address: assigned_server_address.clone(),
            },
            Message::TaskRequest {
                client_name,
                request_id,
                secret_image_data,
                assigned_by_leader,
            } => Message::TaskRequest {
                client_name: client_name.clone(),
                request_id: *request_id,
                secret_image_data: copy_bytes(secret_image_data),
                assigned_by_leader: *assigned_by_leader,
            },
            Message::TaskResponse {
                request_id,
                encrypted_image_data,
                success,
                error_message,
            } => Message::TaskResponse {
                request_id: *request_id,
                encrypted_image_data: copy_bytes(encrypted_image_data),
                success: *success,
                error_message: copy_option_string(error_message),
            },
            Message::TaskAck { client_name, request_id } => Message::TaskAck {
                client_name: client_name.clone(),
                request_id: *request_id,
            },
            Message::TaskStatusQuery { client_name, request_id } => Message::TaskStatusQuery {
                client_name: client_name.clone(),
                request_id: *request_id,
            },
            Message::TaskStatusResponse {
                request_id,
                assigned_server_id,
                assigned_server_address,
            } => Message::TaskStatusResponse {
                request_id: *request_id,
                assigned_server_id: *assigned_server_id,
                assigned_server_address: assigned_server_address.clone(),
            },
            Message::HistoryAdd { client_name, request_id, assigned_server_id, timestamp } => Message::HistoryAdd {
                client_name: client_name.clone(),
                request_id: *request_id,
                assigned_server_id: *assigned_server_id,
                timestamp: *timestamp,
            },
            Message::HistoryRemove { client_name, request_id } => Message::HistoryRemove {
                client_name: client_name.clone(),
                request_id: *request_id,
            },
            Message::HistorySyncRequest { from_server_id } => Message::HistorySyncRequest {
                from_server_id: *from_server_id,
            },
            Message::HistorySyncResponse { from_server_id, history_entries } => Message::HistorySyncResponse {
                from_server_id: *from_server_id,
                history_entries: copy_history_rows(history_entries),
            },
        }
    }
}

} // verus!
