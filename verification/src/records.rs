//! Plain records that programs around the cluster exchange: what a client
//! asks for, who is online, and a snapshot of what a leader knows.

use std::collections::HashMap;
use vstd::prelude::*;

verus! {

/// What a request asks a server to do.
#[derive(Clone, Copy, Debug, PartialEq, Eq, Structural)]
pub enum RequestType {
    Encryption,
    Decryption,
    Discovery,
}

/// A user who is online, and where to reach them.
#[derive(Clone, Debug, PartialEq, Eq)]
pub struct UserInfo {
    pub user_id: String,
    pub username: String,
    pub connection_info: String,
    /// Since when the user has been online, in seconds since the Unix epoch.
    pub online_since: u64,
}

/// What a leader knows at one moment: itself, the peers it holds to be
/// alive, and the users that are online, by user id.
#[derive(Clone, Debug, PartialEq, Eq)]
pub struct StateSnapshot {
    pub leader_id: Option<u32>,
    pub active_peers: Vec<u32>,
    pub discovery_table: HashMap<String, UserInfo>,
    pub timestamp: u64,
}

/// An image to encrypt, for the named users and a number of views.
#[derive(Clone, Debug, PartialEq, Eq)]
pub struct EncryptionRequest {
    pub image_data: Vec<u8>,
    pub username: String,
    pub allowed_users: Vec<String>,
    pub view_count: u32,
}

/// The answer to an [`EncryptionRequest`].
#[derive(Clone, Debug, PartialEq, Eq)]
pub struct EncryptionResponse {
    pub encrypted_image_data: Vec<u8>,
    pub success: bool,
}

} // verus!
