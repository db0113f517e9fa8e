//! What a peer knows of the others: when each was last heard from, and its load.
//!
//! Both facts arrive in one heartbeat and leave together when the peer is
//! declared failed, so the table keeps them in one record per peer id. A
//! heartbeat whose timestamp is not newer than the recorded one is ignored: a
//! replayed heartbeat cannot make a silent peer look fresh.

use std::collections::HashMap;
use vstd::prelude::*;
use vstd::std_specs::iter::IteratorSpec;
use crate::load::{LoadScore, spec_outranks, outranks};

verus! {

/// What is recorded for one peer.
#[derive(Clone, Copy, Debug, PartialEq, Eq, Structural)]
pub struct PeerRecord {
    pub last_seen: u64,
    pub load: LoadScore,
}

/// The candidate that dispatch or election settles on.
#[derive(Clone, Copy, Debug, PartialEq, Eq, Structural)]
pub struct Candidate {
    pub id: u32,
    pub load: LoadScore,
}

pub type PeerMap = Map<u32, PeerRecord>;

/// Whether a peer last seen at `last_seen` counts as failed at `now`: more
/// than `timeout` seconds have passed.
pub open spec fn spec_is_stale(last_seen: u64, now: u64, timeout: u64) -> bool {
    now - last_seen > timeout
}

/// Whether a heartbeat with `timestamp` from `from_id` is taken: the first
/// from that peer, or newer than the one recorded.
pub open spec fn spec_heartbeat_taken(m: PeerMap, from_id: u32, timestamp: u64) -> bool {
    !m.contains_key(from_id) || m[from_id].last_seen < timestamp
}

/// The table after a heartbeat.
pub open spec fn spec_record_heartbeat(m: PeerMap, from_id: u32, timestamp: u64, load: LoadScore) -> PeerMap {
    if spec_heartbeat_taken(m, from_id, timestamp) {
        m.insert(from_id, PeerRecord { last_seen: timestamp, load })
    } else {
        m
    }
}

/// The last-seen times of the table.
pub open spec fn spec_last_seen(m: PeerMap) -> Map<u32, u64> {
    Map::new(|id: u32| m.contains_key(id), |id: u32| m[id].last_seen)
}

/// The loads of the table.
pub open spec fn spec_loads(m: PeerMap) -> Map<u32, LoadScore> {
    Map::new(|id: u32| m.contains_key(id), |id: u32| m[id].load)
}

/// Whether `c` stands for this peer itself or for a peer of the table, with its load.
pub open spec fn spec_is_candidate(m: PeerMap, self_id: u32, self_load: LoadScore, c: Candidate) -> bool {
    (c.id == self_id && c.load == self_load) || (m.contains_key(c.id) && m[c.id].load == c.load)
}

/// Whether `c` is the least loaded of this peer and the peers of the table,
/// the lower id winning between equal loads.
pub open spec fn spec_is_least_loaded(m: PeerMap, self_id: u32, self_load: LoadScore, c: Candidate) -> bool {
    &&& spec_is_candidate(m, self_id, self_load, c)
    &&& !spec_outranks(self_load, self_id, c.load, c.id)
    &&& forall|id: u32| #[trigger] m.contains_key(id) ==> !spec_outranks(m[id].load, id, c.load, c.id)
}

/// The peer table of one peer.
pub struct PeerTable {
    records: HashMap<u32, PeerRecord>,
}

impl View for PeerTable {
    type V = PeerMap;

    closed spec fn view(&self) -> PeerMap {
        self.records@
    }
}

impl PeerTable {
    /// A table that knows no peer.
    pub fn new() -> (table: Self)
        ensures
            table@ == Map::<u32, PeerRecord>::empty(),
    {
        PeerTable { records: HashMap::new() }
    }

    /// What is recorded for `id`, or `None` for a peer that the table does not know.
    pub fn get(&self, id: u32) -> (found: Option<PeerRecord>)
        ensures
            found == (if self@.contains_key(id) {
                Some(self@[id])
            } else {
                None
            }),
    {
        match self.records.get(&id) {
            Some(record) => Some(*record),
            None => None,
        }
    }

    /// Takes a heartbeat. Returns whether it was taken; one that is not newer
    /// than the recorded heartbeat of its sender changes nothing.
    pub fn record_heartbeat(&mut self, from_id: u32, timestamp: u64, load: LoadScore) -> (taken: bool)
        ensures
            taken == spec_heartbeat_taken(old(self)@, from_id, timestamp),
            final(self)@ == spec_record_heartbeat(old(self)@, from_id, timestamp, load),
    {
        let newer = match self.records.get(&from_id) {
            Some(record) => record.last_seen < timestamp,
            None => true,
        };
        if newer {
            let _ = self.records.insert(from_id, PeerRecord { last_seen: timestamp, load });
        }
        newer
    }

    /// Forgets a peer: its last-seen time and its load leave together.
    pub fn remove(&mut self, id: u32)
        ensures
            final(self)@ == old(self)@.remove(id),
    {
        let _ = self.records.remove(&id);
    }

    /// The peers that count as failed at `now`: those not heard from for more
    /// than `timeout` seconds. Each such peer is listed once, in no particular order.
    pub fn stale_peers(&self, now: u64, timeout: u64) -> (stale: Vec<u32>)
        ensures
            stale@.no_duplicates(),
            forall|id: u32|
                stale@.contains(id) <==> (#[trigger] self@.contains_key(id) && spec_is_stale(
                    self@[id].last_seen,
                    now,
                    timeout,
                )),
    {
        let mut stale: Vec<u32> = Vec::new();
        let ghost keys = self.records.keys().remaining();
        for id in it: self.records.keys()
            invariant
                it.seq() == keys,
                keys.no_duplicates(),
                keys.unref().to_set() == self.records@.dom(),
                it.index() <= keys.len(),
                forall|a: int|
                    0 <= a < stale@.len() ==> self.records@.contains_key(#[trigger] stale@[a]) && spec_is_stale(
                        self.records@[stale@[a]].last_seen,
                        now,
                        timeout,
                    ),
                forall|a: int, j: int|
                    0 <= a < stale@.len() && it.index() <= j < keys.len() ==> #[trigger] stale@[a] != *#[trigger] keys[j],
                forall|j: int|
                    0 <= j < it.index() && spec_is_stale(self.records@[*#[trigger] keys[j]].last_seen, now, timeout)
                        ==> stale@.contains(*keys[j]),
                stale@.no_duplicates(),
        {
            let ghost at = it.index() as int;
            let ghost listed = stale@;
            assert(keys.unref()[at] == *id);
            assert(keys.unref().to_set().contains(*id));
            let record = *self.records.get(id).unwrap();
            if now > record.last_seen && now - record.last_seen > timeout {
                stale.push(*id);
                proof {
                    assert forall|a: int, j: int| 0 <= a < stale@.len() && at + 1 <= j < keys.len() implies #[trigger] stale@[a]
                        != *#[trigger] keys[j] by {
                        if a < listed.len() {
                            assert(stale@[a] == listed[a]);
                        } else {
                            assert(keys[at] != keys[j]);
                        }
                    }
                    assert forall|j: int|
                        0 <= j < at + 1 && spec_is_stale(
                            self.records@[*#[trigger] keys[j]].last_seen,
                            now,
                            timeout,
                        ) implies stale@.contains(*keys[j]) by {
                        if j < at {
                            let a = choose|a: int| 0 <= a < listed.len() && listed[a] == *keys[j];
                            assert(stale@[a] == *keys[j]);
                        } else {
                            assert(stale@[listed.len() as int] == *keys[j]);
                        }
                    }
                }
            }
        }
        proof {
            assert forall|id: u32|
                stale@.contains(id) <==> (#[trigger] self@.contains_key(id) && spec_is_stale(
                    self@[id].last_seen,
                    now,
                    timeout,
                )) by {
                if self@.contains_key(id) && spec_is_stale(self@[id].last_seen, now, timeout) {
                    assert(keys.unref().to_set().contains(id));
                    let j = choose|j: int| 0 <= j < keys.unref().len() && keys.unref()[j] == id;
                    assert(*keys[j] == id);
                }
            }
        }
        stale
    }

    /// The least loaded of this peer itself, with `self_load`, and the peers
    /// of the table; between equal loads the lower id.
    pub fn least_loaded(&self, self_id: u32, self_load: LoadScore) -> (best: Candidate)
        ensures
            spec_is_least_loaded(self@, self_id, self_load, best),
    {
        let mut best = Candidate { id: self_id, load: self_load };
        let ghost keys = self.records.keys().remaining();
        for id in it: self.records.keys()
            invariant
                it.seq() == keys,
                keys.unref().to_set() == self.records@.dom(),
                it.index() <= keys.len(),
                spec_is_candidate(self.records@, self_id, self_load, best),
                !spec_outranks(self_load, self_id, best.load, best.id),
                forall|j: int|
                    0 <= j < it.index() ==> !spec_outranks(
                        self.records@[*#[trigger] keys[j]].load,
                        *keys[j],
                        best.load,
                        best.id,
                    ),
        {
            let ghost at = it.index() as int;
            assert(keys.unref()[at] == *id);
            assert(keys.unref().to_set().contains(*id));
            let record = *self.records.get(id).unwrap();
            if outranks(record.load, *id, best.load, best.id) {
                best = Candidate { id: *id, load: record.load };
            }
        }
        proof {
            assert forall|id: u32| #[trigger] self@.contains_key(id) implies !spec_outranks(
                self@[id].load,
                id,
                best.load,
                best.id,
            ) by {
                assert(keys.unref().to_set().contains(id));
                let j = choose|j: int| 0 <= j < keys.unref().len() && keys.unref()[j] == id;
                assert(*keys[j] == id);
            }
        }
        best
    }

    /// A table knows of finitely many peers.
    pub proof fn lemma_view_is_finite(&self)
        ensures
            self@.dom().finite(),
    {
    }
}

/// The last-seen times and the loads are kept for the same peers, whatever the table holds.
pub proof fn lemma_last_seen_and_loads_share_keys(m: PeerMap)
    ensures
        spec_last_seen(m).dom() == spec_loads(m).dom(),
        spec_last_seen(m).dom() == m.dom(),
{
    assert(spec_last_seen(m).dom() =~= m.dom());
    assert(spec_loads(m).dom() =~= m.dom());
}

/// A heartbeat that is not newer than the recorded one of its sender leaves the table as it was.
pub proof fn lemma_stale_heartbeat_ignored(m: PeerMap, from_id: u32, timestamp: u64, load: LoadScore)
    requires
        m.contains_key(from_id),
        timestamp <= m[from_id].last_seen,
    ensures
        spec_record_heartbeat(m, from_id, timestamp, load) == m,
{
}

/// The recorded last-seen time of a peer never goes back.
pub proof fn lemma_last_seen_monotone(m: PeerMap, from_id: u32, timestamp: u64, load: LoadScore)
    requires
        m.contains_key(from_id),
    ensures
        spec_record_heartbeat(m, from_id, timestamp, load).contains_key(from_id),
        spec_record_heartbeat(m, from_id, timestamp, load)[from_id].last_seen >= m[from_id].last_seen,
{
}

/// The least loaded candidate is unique: two answers to the same question are the same.
pub proof fn lemma_least_loaded_unique(m: PeerMap, self_id: u32, self_load: LoadScore, a: Candidate, b: Candidate)
    requires
        spec_is_least_loaded(m, self_id, self_load, a),
        spec_is_least_loaded(m, self_id, self_load, b),
    ensures
        a == b,
{
    if a.id == self_id && a.load == self_load {
    } else {
        assert(m.contains_key(a.id));
    }
    if b.id == self_id && b.load == self_load {
    } else {
        assert(m.contains_key(b.id));
    }
}

/// No candidate has a lower load than the least loaded one.
pub proof fn lemma_least_loaded_is_minimal(m: PeerMap, self_id: u32, self_load: LoadScore, best: Candidate)
    requires
        spec_is_least_loaded(m, self_id, self_load, best),
    ensures
        best.load <= self_load,
        forall|id: u32| #[trigger] m.contains_key(id) ==> best.load <= m[id].load,
{
}

} // verus!
