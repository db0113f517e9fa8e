//! Where chance decides: the jitter before the first election, the pause
//! between two requests of a client, and the election by lot.

use rand::Rng;
use vstd::prelude::*;
use crate::election::{STARTUP_DELAY_MS, STARTUP_JITTER_END_MS, STARTUP_JITTER_MIN_MS};

verus! {

/// Draws a number from `low` up to, but not including, `high` with
/// `rand::Rng::gen_range` on the generator of the thread. The range must not
/// be empty: `gen_range` does not return on an empty range. All that is
/// claimed of the number is that it lies in the range.
#[verifier::external_body]
fn random_in_range(low: u64, high: u64) -> (n: u64)
    requires
        low < high,
    ensures
        low <= n < high,
{
    rand::thread_rng().gen_range(low..high)
}

/// How long a server waits before its first election, in milliseconds: the
/// warm-up and a jitter that keeps the servers from starting all at once.
pub fn initial_election_delay_ms() -> (delay: u64)
    ensures
        STARTUP_DELAY_MS + STARTUP_JITTER_MIN_MS <= delay < STARTUP_DELAY_MS + STARTUP_JITTER_END_MS,
{
    STARTUP_DELAY_MS + random_in_range(STARTUP_JITTER_MIN_MS, STARTUP_JITTER_END_MS)
}

/// The pause after a request that succeeded, in milliseconds: from
/// `min_delay_ms` up to, but not including, `max_delay_ms`; `min_delay_ms`
/// itself where the two are equal.
pub fn request_delay_ms(min_delay_ms: u64, max_delay_ms: u64) -> (delay: u64)
    requires
        min_delay_ms <= max_delay_ms,
    ensures
        min_delay_ms <= delay <= max_delay_ms,
        delay == max_delay_ms ==> min_delay_ms == max_delay_ms,
{
    if min_delay_ms == max_delay_ms {
        min_delay_ms
    } else {
        min_delay_ms + random_in_range(0, max_delay_ms - min_delay_ms)
    }
}

/// The index of one of `len` things, drawn by lot.
pub fn pick_index(len: usize) -> (index: usize)
    requires
        len > 0,
    ensures
        index < len,
{
    random_in_range(0, len as u64) as usize
}

/// Election by lot.
pub struct AleaElection;

impl AleaElection {
    /// The id of one of `server_count` servers, which have the ids from 1 on, drawn by lot.
    pub fn elect_random_server(server_count: usize) -> (id: u32)
        requires
            1 <= server_count <= u32::MAX,
        ensures
            1 <= id <= server_count,
    {
        random_in_range(1, server_count as u64 + 1) as u32
    }
}

} // verus!
