//! The coordination core of a small fault-tolerant cluster of servers that
//! hide a payload in an image for their clients.
//!
//! The servers elect a leader by load, the leader hands each request to the
//! least loaded server, every server keeps a ledger of who is responsible for
//! which request, and a client follows its request through the failure of
//! any server. Everything here decides and computes; sockets, timers and
//! workers belong to the programs that drive it.
//!
//! - [`load`]: the load score of a server, and the counters behind it
//! - [`message`]: the messages of the protocol; [`frame`]: how they are framed
//! - [`link`]: the outbound links of a server to its peers
//! - [`election`]: the election engine
//! - [`peers`]: what a server knows of its peers, and which of them have failed
//! - [`ledger`]: the task ledger
//! - [`server`]: the state of a server and what it does on each event
//! - [`client`]: the coordinator that sees a request of a client through
//! - [`codec`] and [`encoder`]: hiding a payload in an image
//! - [`metrics`]: the record a client keeps of its requests
//! - [`config`], [`clock`], [`random`]: configuration, the wall clock, and chance
//! - [`records`]: plain records that programs around the cluster exchange

pub mod client;
pub mod clock;
pub mod codec;
pub mod config;
pub mod election;
pub mod encoder;
pub mod frame;
pub mod ledger;
pub mod link;
pub mod load;
pub mod message;
pub mod metrics;
pub mod peers;
pub mod random;
pub mod records;
pub mod server;
