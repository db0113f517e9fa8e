//! The static configuration of servers and clients, as plain values.

use vstd::prelude::*;

verus! {

/// Identity and listen address of this server.
#[derive(Debug, PartialEq, Eq)]
pub struct ServerInfo {
    pub id: u32,
    pub address: String,
}

/// Identity and address of one other server of the cluster.
#[derive(Debug, PartialEq, Eq)]
pub struct PeerInfo {
    pub id: u32,
    pub address: String,
}

/// The other servers of the cluster.
#[derive(Debug, PartialEq, Eq)]
pub struct PeersConfig {
    pub peers: Vec<PeerInfo>,
}

/// Timing of heartbeats, elections and failure detection, in seconds.
#[derive(Clone, Copy, Debug, PartialEq, Eq, Structural)]
pub struct ElectionConfig {
    pub heartbeat_interval_secs: u64,
    pub election_timeout_secs: u64,
    pub failure_timeout_secs: u64,
    pub monitor_interval_secs: u64,
}

/// Sizing of the pool that runs the encoder.
#[derive(Clone, Copy, Debug, PartialEq, Eq, Structural)]
pub struct EncryptionConfig {
    pub thread_pool_size: usize,
    pub max_queue_size: usize,
}

/// Everything a server is configured with.
#[derive(Debug, PartialEq, Eq)]
pub struct ServerConfig {
    pub server: ServerInfo,
    pub peers: PeersConfig,
    pub election: ElectionConfig,
}

/// Identity of a client and the servers it knows, in peer-id order: the
/// address at index `i` belongs to the server with id `i + 1`.
#[derive(Debug, PartialEq, Eq)]
pub struct ClientInfo {
    pub name: String,
    pub server_addresses: Vec<String>,
    pub image_dir: String,
}

/// How many requests a client sends, and the bounds of the pause between two.
#[derive(Clone, Copy, Debug, PartialEq, Eq, Structural)]
pub struct RequestConfig {
    pub total_requests: u64,
    pub min_delay_ms: u64,
    pub max_delay_ms: u64,
}

/// Everything a client is configured with.
#[derive(Debug, PartialEq, Eq)]
pub struct ClientConfig {
    pub client: ClientInfo,
    pub requests: RequestConfig,
}

/// The model of the peer list: ids with addresses, in configuration order.
pub open spec fn peers_view(peers: Seq<PeerInfo>) -> Seq<(u32, Seq<char>)> {
    peers.map_values(|p: PeerInfo| (p.id, p.address@))
}

/// The model of a [`ServerConfig`].
pub struct ServerConfigView {
    pub id: u32,
    pub address: Seq<char>,
    pub peers: Seq<(u32, Seq<char>)>,
    pub election: ElectionConfig,
}

impl View for ServerConfig {
    type V = ServerConfigView;

    open spec fn view(&self) -> ServerConfigView {
        ServerConfigView {
            id: self.server.id,
            address: self.server.address@,
            peers: peers_view(self.peers.peers@),
            election: self.election,
        }
    }
}

/// The address that the peer list gives for `id`: that of the first entry
/// with that id, or the empty string where there is none.
pub open spec fn spec_peer_address(peers: Seq<(u32, Seq<char>)>, id: u32) -> Seq<char>
    decreases peers.len(),
{
    if peers.len() == 0 {
        Seq::empty()
    } else if peers[0].0 == id {
        peers[0].1
    } else {
        spec_peer_address(peers.skip(1), id)
    }
}

/// The address of server `id` as this server knows it: its own address for
/// itself, else what the peer list gives.
pub open spec fn spec_resolve_address(config: ServerConfigView, id: u32) -> Seq<char> {
    if id == config.id {
        config.address
    } else {
        spec_peer_address(config.peers, id)
    }
}

impl PeersConfig {
    /// The address configured for peer `id`; empty for a peer that is not configured.
    pub fn address_of(&self, id: u32) -> (address: String)
        ensures
            address@ == spec_peer_address(peers_view(self.peers@), id),
    {
        let ghost all = peers_view(self.peers@);
        let mut i: usize = 0;
        assert(all.skip(0) =~= all);
        while i < self.peers.len()
            invariant
                i <= self.peers@.len(),
                all == peers_view(self.peers@),
                spec_peer_address(all, id) == spec_peer_address(all.skip(i as int), id),
            decreases self.peers@.len() - i,
        {
            proof {
                let rest = all.skip(i as int);
                assert(rest[0] == (self.peers@[i as int].id, self.peers@[i as int].address@));
                assert(rest.skip(1) =~= all.skip(i + 1));
            }
            if self.peers[i].id == id {
                return self.peers[i].address.clone();
            }
            i += 1;
        }
        String::new()
    }
}

impl ServerConfig {
    /// The address of server `id`: this server's own address for itself, else
    /// the one configured for that peer, else the empty string.
    pub fn resolve_address(&self, id: u32) -> (address: String)
        ensures
            address@ == spec_resolve_address(self@, id),
    {
        if id == self.server.id {
            self.server.address.clone()
        } else {
            self.peers.address_of(id)
        }
    }
}

/// Whether a file with this extension counts as an image that a client may send.
pub open spec fn spec_is_image_extension(extension: Seq<char>) -> bool {
    extension == "jpg"@ || extension == "jpeg"@ || extension == "png"@
}

/// Whether a file with this extension counts as an image that a client may send.
pub fn is_image_extension(extension: &str) -> (is: bool)
    ensures
        is == spec_is_image_extension(extension@),
{
    let given = extension.to_owned();
    given == "jpg".to_owned() || given == "jpeg".to_owned() || given == "png".to_owned()
}

/// The directory a client takes its images from when none is configured.
pub fn default_image_dir() -> (dir: String)
    ensures
        dir@ == "test_images"@,
{
    "test_images".to_owned()
}

} // verus!
