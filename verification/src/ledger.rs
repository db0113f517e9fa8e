//! The task ledger: which peer is currently responsible for which client request.
//!
//! Every peer keeps its own copy. The leader adds an entry when it assigns a
//! request, the assignee removes it once the client has acknowledged the
//! result, and every peer sweeps the entries of a peer it has declared failed.
//! The model of a ledger is a finite map from request key to assignment; a key
//! never has more than one entry.

use vstd::prelude::*;

verus! {

/// Identifies one request of one client.
#[derive(Debug, PartialEq, Eq)]
pub struct RequestKey {
    pub client_name: String,
    pub request_id: u64,
}

impl View for RequestKey {
    type V = (Seq<char>, u64);

    open spec fn view(&self) -> (Seq<char>, u64) {
        (self.client_name@, self.request_id)
    }
}

impl Clone for RequestKey {
    fn clone(&self) -> (copy: Self)
        ensures
            copy@ == self@,
    {
        RequestKey { client_name: self.client_name.clone(), request_id: self.request_id }
    }
}

impl RequestKey {
    pub fn new(client_name: String, request_id: u64) -> (key: Self)
        ensures
            key@ == (client_name@, request_id),
    {
        RequestKey { client_name, request_id }
    }

    /// Whether two keys name the same request.
    pub fn same_as(&self, other: &RequestKey) -> (same: bool)
        ensures
            same == (self@ == other@),
    {
        self.request_id == other.request_id && self.client_name == other.client_name
    }
}

/// What the ledger records for a key: the assignee and when it was assigned.
#[derive(Clone, Copy, Debug, PartialEq, Eq, Structural)]
pub struct Assignment {
    pub server_id: u32,
    pub timestamp: u64,
}

/// One row of the ledger.
#[derive(Debug, PartialEq, Eq)]
pub struct LedgerEntry {
    pub key: RequestKey,
    pub assignment: Assignment,
}

/// A replicated add or remove, as it travels between peers.
#[derive(Debug, PartialEq, Eq)]
pub enum LedgerOp {
    Add { key: RequestKey, assignment: Assignment },
    Remove { key: RequestKey },
}

/// The model of a [`LedgerOp`].
pub enum LedgerOpView {
    Add { key: (Seq<char>, u64), assignment: Assignment },
    Remove { key: (Seq<char>, u64) },
}

impl View for LedgerOp {
    type V = LedgerOpView;

    open spec fn view(&self) -> LedgerOpView {
        match *self {
            LedgerOp::Add { key, assignment } => LedgerOpView::Add { key: key@, assignment },
            LedgerOp::Remove { key } => LedgerOpView::Remove { key: key@ },
        }
    }
}

impl LedgerOpView {
    /// The key that the operation is about.
    pub open spec fn key(self) -> (Seq<char>, u64) {
        match self {
            LedgerOpView::Add { key, .. } => key,
            LedgerOpView::Remove { key } => key,
        }
    }
}

pub type LedgerMap = Map<(Seq<char>, u64), Assignment>;

/// The ledger after an insert-or-overwrite of `key`.
pub open spec fn ledger_add(m: LedgerMap, key: (Seq<char>, u64), assignment: Assignment) -> LedgerMap {
    m.insert(key, assignment)
}

/// The ledger after `key` has been deleted; deleting an absent key changes nothing.
pub open spec fn ledger_remove(m: LedgerMap, key: (Seq<char>, u64)) -> LedgerMap {
    m.remove(key)
}

/// The ledger without the entries assigned to `server_id`.
pub open spec fn ledger_sweep(m: LedgerMap, server_id: u32) -> LedgerMap {
    Map::new(|k: (Seq<char>, u64)| m.contains_key(k) && m[k].server_id != server_id, |k: (Seq<char>, u64)| m[k])
}

/// The ledger after one replicated operation.
pub open spec fn ledger_apply(m: LedgerMap, op: LedgerOpView) -> LedgerMap {
    match op {
        LedgerOpView::Add { key, assignment } => ledger_add(m, key, assignment),
        LedgerOpView::Remove { key } => ledger_remove(m, key),
    }
}

/// The ledger after a sequence of replicated operations, applied in order.
pub open spec fn ledger_apply_all(m: LedgerMap, ops: Seq<LedgerOpView>) -> LedgerMap
    decreases ops.len(),
{
    if ops.len() == 0 {
        m
    } else {
        ledger_apply(ledger_apply_all(m, ops.drop_last()), ops.last())
    }
}

/// No two rows share a key.
spec fn distinct_keys(rows: Seq<LedgerEntry>) -> bool {
    forall|i: int, j: int| 0 <= i < j < rows.len() ==> (#[trigger] rows[i]).key@ != (#[trigger] rows[j]).key@
}

/// Whether some row of `rows` has the key `k`.
spec fn has_row(rows: Seq<LedgerEntry>, k: (Seq<char>, u64)) -> bool {
    exists|i: int| 0 <= i < rows.len() && (#[trigger] rows[i]).key@ == k
}

/// The index of a row with key `k`.
spec fn row_of(rows: Seq<LedgerEntry>, k: (Seq<char>, u64)) -> int {
    choose|i: int| 0 <= i < rows.len() && (#[trigger] rows[i]).key@ == k
}

/// The map that a sequence of rows stands for.
spec fn rows_map(rows: Seq<LedgerEntry>) -> LedgerMap {
    Map::new(|k: (Seq<char>, u64)| has_row(rows, k), |k: (Seq<char>, u64)| rows[row_of(rows, k)].assignment)
}

/// With distinct keys, each row is what the map holds for its key.
proof fn lemma_row_in_map(rows: Seq<LedgerEntry>, i: int)
    requires
        distinct_keys(rows),
        0 <= i < rows.len(),
    ensures
        rows_map(rows).contains_key(rows[i].key@),
        rows_map(rows)[rows[i].key@] == rows[i].assignment,
        row_of(rows, rows[i].key@) == i,
{
    let k = rows[i].key@;
    assert(has_row(rows, k));
    let j = row_of(rows, k);
    assert(0 <= j < rows.len() && rows[j].key@ == k);
    if j < i {
        assert(rows[j].key@ != rows[i].key@);
    } else if i < j {
        assert(rows[i].key@ != rows[j].key@);
    }
}

/// The task ledger of one peer.
pub struct TaskLedger {
    rows: Vec<LedgerEntry>,
}

impl View for TaskLedger {
    type V = LedgerMap;

    closed spec fn view(&self) -> LedgerMap {
        rows_map(self.rows@)
    }
}

impl TaskLedger {
    /// The representation invariant: no key has two rows.
    pub closed spec fn wf(&self) -> bool {
        distinct_keys(self.rows@)
    }

    /// An empty ledger.
    pub fn new() -> (ledger: Self)
        ensures
            ledger.wf(),
            ledger@ == Map::<(Seq<char>, u64), Assignment>::empty(),
    {
        let ledger = TaskLedger { rows: Vec::new() };
        assert(ledger@ =~= Map::<(Seq<char>, u64), Assignment>::empty());
        ledger
    }

    /// The position of the row for `key`, if there is one.
    fn position(&self, key: &RequestKey) -> (found: Option<usize>)
        ensures
            match found {
                Some(i) => i < self.rows@.len() && self.rows@[i as int].key@ == key@,
                None => !has_row(self.rows@, key@),
            },
    {
        let mut i: usize = 0;
        while i < self.rows.len()
            invariant
                i <= self.rows@.len(),
                forall|j: int| 0 <= j < i ==> (#[trigger] self.rows@[j]).key@ != key@,
            decreases self.rows@.len() - i,
        {
            if self.rows[i].key.same_as(key) {
                return Some(i);
            }
            i += 1;
        }
        None
    }

    /// The current entry for `key`, or `None` where the ledger holds none.
    pub fn lookup(&self, key: &RequestKey) -> (found: Option<Assignment>)
        requires
            self.wf(),
        ensures
            found == (if self@.contains_key(key@) {
                Some(self@[key@])
            } else {
                None
            }),
    {
        match self.position(key) {
            Some(i) => {
                proof {
                    lemma_row_in_map(self.rows@, i as int);
                }
                Some(self.rows[i].assignment)
            },
            None => None,
        }
    }

    /// Whether the ledger holds an entry for `key`.
    pub fn contains(&self, key: &RequestKey) -> (present: bool)
        requires
            self.wf(),
        ensures
            present == self@.contains_key(key@),
    {
        self.lookup(key).is_some()
    }

    /// Insert-or-overwrite: afterwards `key` is assigned to `server_id` as of `timestamp`.
    pub fn add(&mut self, key: RequestKey, server_id: u32, timestamp: u64)
        requires
            old(self).wf(),
        ensures
            final(self).wf(),
            final(self)@ == ledger_add(old(self)@, key@, Assignment { server_id, timestamp }),
    {
        let ghost before = self.rows@;
        let ghost k = key@;
        let assignment = Assignment { server_id, timestamp };
        match self.position(&key) {
            Some(i) => {
                self.rows.set(i, LedgerEntry { key, assignment });
                proof {
                    let after = self.rows@;
                    assert(distinct_keys(after)) by {
                        assert forall|a: int, b: int| 0 <= a < b < after.len() implies (#[trigger] after[a]).key@
                            != (#[trigger] after[b]).key@ by {
                            assert(after[a].key@ == before[a].key@);
                            assert(after[b].key@ == before[b].key@);
                        }
                    }
                    assert forall|q: (Seq<char>, u64)| has_row(after, q) == has_row(before, q) by {
                        if has_row(after, q) {
                            let a = row_of(after, q);
                            assert(before[a].key@ == q);
                        }
                        if has_row(before, q) {
                            let a = row_of(before, q);
                            assert(after[a].key@ == q);
                        }
                    }
                    assert forall|q: (Seq<char>, u64)| has_row(after, q) implies rows_map(after)[q] == ledger_add(
                        rows_map(before),
                        k,
                        assignment,
                    )[q] by {
                        let a = row_of(after, q);
                        lemma_row_in_map(after, a);
                        lemma_row_in_map(before, a);
                    }
                    assert(has_row(before, k)) by {
                        assert(before[i as int].key@ == k);
                    }
                    assert(rows_map(after) =~= ledger_add(rows_map(before), k, assignment));
                }
            },
            None => {
                self.rows.push(LedgerEntry { key, assignment });
                proof {
                    let after = self.rows@;
                    let n = before.len() as int;
                    assert(distinct_keys(after)) by {
                        assert forall|a: int, b: int| 0 <= a < b < after.len() implies (#[trigger] after[a]).key@
                            != (#[trigger] after[b]).key@ by {
                            assert(after[a] == before[a]);
                            if b < n {
                                assert(after[b] == before[b]);
                            } else {
                                assert(after[b].key@ == k);
                                assert(before[a].key@ != k);
                            }
                        }
                    }
                    assert forall|q: (Seq<char>, u64)| has_row(after, q) == (has_row(before, q) || q == k) by {
                        if has_row(after, q) {
                            let a = row_of(after, q);
                            if a < n {
                                assert(before[a].key@ == q);
                            }
                        }
                        if has_row(before, q) {
                            let a = row_of(before, q);
                            assert(after[a].key@ == q);
                        }
                        if q == k {
                            assert(after[n].key@ == q);
                        }
                    }
                    assert forall|q: (Seq<char>, u64)| has_row(after, q) implies rows_map(after)[q] == ledger_add(
                        rows_map(before),
                        k,
                        assignment,
                    )[q] by {
                        let a = row_of(after, q);
                        lemma_row_in_map(after, a);
                        if a < n {
                            assert(after[a] == before[a]);
                            lemma_row_in_map(before, a);
                        }
                    }
                    assert(rows_map(after) =~= ledger_add(rows_map(before), k, assignment));
                }
            },
        }
    }

    /// Idempotent delete: afterwards the ledger holds no entry for `key`.
    pub fn remove(&mut self, key: &RequestKey)
        requires
            old(self).wf(),
        ensures
            final(self).wf(),
            final(self)@ == ledger_remove(old(self)@, key@),
    {
        let ghost before = self.rows@;
        let ghost k = key@;
        match self.position(key) {
            Some(i) => {
                let _ = self.rows.remove(i);
                proof {
                    let after = self.rows@;
                    let at = i as int;
                    assert forall|a: int| 0 <= a < after.len() implies #[trigger] after[a] == before[if a < at {
                        a
                    } else {
                        a + 1
                    }] by {}
                    assert(distinct_keys(after)) by {
                        assert forall|a: int, b: int| 0 <= a < b < after.len() implies (#[trigger] after[a]).key@
                            != (#[trigger] after[b]).key@ by {
                            let a0 = if a < at { a } else { a + 1 };
                            let b0 = if b < at { b } else { b + 1 };
                            assert(after[a] == before[a0]);
                            assert(after[b] == before[b0]);
                            assert(before[a0].key@ != before[b0].key@);
                        }
                    }
                    assert forall|q: (Seq<char>, u64)| has_row(after, q) == (has_row(before, q) && q != k) by {
                        if has_row(after, q) {
                            let a = row_of(after, q);
                            let a0 = if a < at { a } else { a + 1 };
                            assert(after[a] == before[a0]);
                            assert(before[a0].key@ == q);
                            if a0 < at {
                                assert(before[a0].key@ != before[at].key@);
                            } else {
                                assert(before[at].key@ != before[a0].key@);
                            }
                        }
                        if has_row(before, q) && q != k {
                            let a0 = row_of(before, q);
                            let a = if a0 < at { a0 } else { a0 - 1 };
                            assert(after[a] == before[a0]);
                            assert(after[a].key@ == q);
                        }
                    }
                    assert forall|q: (Seq<char>, u64)| has_row(after, q) implies rows_map(after)[q] == rows_map(
                        before,
                    )[q] by {
                        let a = row_of(after, q);
                        let a0 = if a < at { a } else { a + 1 };
                        assert(after[a] == before[a0]);
                        lemma_row_in_map(after, a);
                        lemma_row_in_map(before, a0);
                    }
                    assert(rows_map(after) =~= ledger_remove(rows_map(before), k));
                }
            },
            None => {
                assert(rows_map(before) =~= ledger_remove(rows_map(before), k));
            },
        }
    }

    /// Removes every entry whose assignee is `server_id`, and only those.
    pub fn sweep(&mut self, server_id: u32)
        requires
            old(self).wf(),
        ensures
            final(self).wf(),
            final(self)@ == ledger_sweep(old(self)@, server_id),
    {
        let ghost before = self.rows@;
        let mut kept: Vec<LedgerEntry> = Vec::new();
        let ghost mut origin: Seq<int> = Seq::empty();
        let mut i: usize = 0;
        while i < self.rows.len()
            invariant
                self.rows@ == before,
                distinct_keys(before),
                i <= before.len(),
                origin.len() == kept@.len(),
                forall|a: int| 0 <= a < kept@.len() ==> 0 <= #[trigger] origin[a] < i && kept@[a].key@
                    == before[origin[a]].key@ && kept@[a].assignment == before[origin[a]].assignment
                    && kept@[a].assignment.server_id != server_id,
                forall|a: int, b: int| 0 <= a < b < kept@.len() ==> #[trigger] origin[a] < #[trigger] origin[b],
                forall|j: int| 0 <= j < i && (#[trigger] before[j]).assignment.server_id != server_id ==> exists|a: int|
                    0 <= a < kept@.len() && #[trigger] origin[a] == j,
            decreases before.len() - i,
        {
            if self.rows[i].assignment.server_id != server_id {
                let row = LedgerEntry { key: self.rows[i].key.clone(), assignment: self.rows[i].assignment };
                let ghost kept_before = kept@;
                let ghost origin_before = origin;
                kept.push(row);
                proof {
                    origin = origin.push(i as int);
                    assert forall|j: int| 0 <= j < i + 1 && (#[trigger] before[j]).assignment.server_id
                        != server_id implies exists|a: int| 0 <= a < kept@.len() && #[trigger] origin[a] == j by {
                        if j < i {
                            let a = choose|a: int| 0 <= a < kept_before.len() && #[trigger] origin_before[a] == j;
                            assert(origin[a] == j);
                        } else {
                            assert(origin[kept_before.len() as int] == j);
                        }
                    }
                }
            }
            i += 1;
        }
        proof {
            let after = kept@;
            assert(distinct_keys(after)) by {
                assert forall|a: int, b: int| 0 <= a < b < after.len() implies (#[trigger] after[a]).key@
                    != (#[trigger] after[b]).key@ by {
                    assert(origin[a] < origin[b]);
                    assert(before[origin[a]].key@ != before[origin[b]].key@);
                }
            }
            let swept = ledger_sweep(rows_map(before), server_id);
            assert forall|q: (Seq<char>, u64)| has_row(after, q) == swept.contains_key(q) by {
                if has_row(after, q) {
                    let a = row_of(after, q);
                    lemma_row_in_map(before, origin[a]);
                }
                if swept.contains_key(q) {
                    let j = row_of(before, q);
                    lemma_row_in_map(before, j);
                    let a = choose|a: int| 0 <= a < kept@.len() && #[trigger] origin[a] == j;
                    assert(after[a].key@ == q);
                }
            }
            assert forall|q: (Seq<char>, u64)| has_row(after, q) implies rows_map(after)[q] == swept[q] by {
                let a = row_of(after, q);
                lemma_row_in_map(after, a);
                lemma_row_in_map(before, origin[a]);
            }
            assert(rows_map(after) =~= swept);
        }
        self.rows = kept;
    }

    /// Applies one replicated operation.
    pub fn apply(&mut self, op: LedgerOp)
        requires
            old(self).wf(),
        ensures
            final(self).wf(),
            final(self)@ == ledger_apply(old(self)@, op@),
    {
        match op {
            LedgerOp::Add { key, assignment } => {
                self.add(key, assignment.server_id, assignment.timestamp);
            },
            LedgerOp::Remove { key } => {
                self.remove(&key);
            },
        }
    }
}

proof fn lemma_rows_map_is_finite(rows: Seq<LedgerEntry>)
    ensures
        rows_map(rows).dom().finite(),
    decreases rows.len(),
{
    if rows.len() == 0 {
        assert(rows_map(rows).dom() =~= Set::<(Seq<char>, u64)>::empty());
    } else {
        let rest = rows.drop_last();
        lemma_rows_map_is_finite(rest);
        assert(rows_map(rows).dom() =~= rows_map(rest).dom().insert(rows.last().key@)) by {
            assert forall|k: (Seq<char>, u64)| has_row(rows, k) == (has_row(rest, k) || k == rows.last().key@) by {
                if has_row(rows, k) {
                    let i = row_of(rows, k);
                    if i < rest.len() {
                        assert(rest[i].key@ == k);
                    }
                }
                if has_row(rest, k) {
                    let i = row_of(rest, k);
                    assert(rows[i].key@ == k);
                }
                if k == rows.last().key@ {
                    assert(rows[rows.len() - 1].key@ == k);
                }
            }
        }
    }
}

impl TaskLedger {
    /// A ledger holds finitely many entries.
    pub proof fn lemma_view_is_finite(&self)
        ensures
            self@.dom().finite(),
    {
        lemma_rows_map_is_finite(self.rows@);
    }
}

/// Adding the same assignment twice is the same as adding it once.
pub proof fn lemma_add_is_idempotent(m: LedgerMap, key: (Seq<char>, u64), assignment: Assignment)
    ensures
        ledger_add(ledger_add(m, key, assignment), key, assignment) == ledger_add(m, key, assignment),
{
    assert(ledger_add(ledger_add(m, key, assignment), key, assignment) =~= ledger_add(m, key, assignment));
}

/// Removing a key twice is the same as removing it once.
pub proof fn lemma_remove_is_idempotent(m: LedgerMap, key: (Seq<char>, u64))
    ensures
        ledger_remove(ledger_remove(m, key), key) == ledger_remove(m, key),
{
    assert(ledger_remove(ledger_remove(m, key), key) =~= ledger_remove(m, key));
}

/// For one key, only the last operation counts: a sequence of adds and
/// removes that are all about the same key, replayed or duplicated as they
/// may be, leaves the ledger as its last operation alone would.
pub proof fn lemma_last_operation_wins(m: LedgerMap, ops: Seq<LedgerOpView>, key: (Seq<char>, u64))
    requires
        ops.len() > 0,
        forall|i: int| 0 <= i < ops.len() ==> (#[trigger] ops[i]).key() == key,
    ensures
        ledger_apply_all(m, ops) == ledger_apply(m, ops.last()),
    decreases ops.len(),
{
    let before = ledger_apply_all(m, ops.drop_last());
    if ops.len() > 1 {
        let earlier = ops.drop_last();
        assert forall|i: int| 0 <= i < earlier.len() implies (#[trigger] earlier[i]).key() == key by {
            assert(earlier[i] == ops[i]);
        }
        lemma_last_operation_wins(m, earlier, key);
        assert(earlier.last().key() == key);
        assert(ops.last().key() == key);
        assert(ledger_apply(ledger_apply(m, earlier.last()), ops.last()) =~= ledger_apply(m, ops.last()));
    } else {
        assert(ops.drop_last().len() == 0);
        assert(before == m);
    }
}

/// An operation on one key leaves the entries of all other keys alone.
pub proof fn lemma_operation_is_local(m: LedgerMap, op: LedgerOpView, other: (Seq<char>, u64))
    requires
        op.key() != other,
    ensures
        ledger_apply(m, op).contains_key(other) == m.contains_key(other),
        m.contains_key(other) ==> ledger_apply(m, op)[other] == m[other],
{
}

/// A sweep is complete and exact: afterwards no entry is assigned to the
/// swept server, and every entry of another server is as it was.
pub proof fn lemma_sweep_is_complete(m: LedgerMap, server_id: u32)
    ensures
        forall|k: (Seq<char>, u64)| #[trigger]
            ledger_sweep(m, server_id).contains_key(k) ==> ledger_sweep(m, server_id)[k].server_id != server_id,
        forall|k: (Seq<char>, u64)| #[trigger]
            m.contains_key(k) && m[k].server_id != server_id ==> ledger_sweep(m, server_id).contains_key(k)
                && ledger_sweep(m, server_id)[k] == m[k],
        ledger_sweep(ledger_sweep(m, server_id), server_id) == ledger_sweep(m, server_id),
{
    assert(ledger_sweep(ledger_sweep(m, server_id), server_id) =~= ledger_sweep(m, server_id));
}

/// Operations on different keys can arrive in either order: the ledger ends the same.
pub proof fn lemma_operations_on_other_keys_commute(m: LedgerMap, first: LedgerOpView, second: LedgerOpView)
    requires
        first.key() != second.key(),
    ensures
        ledger_apply(ledger_apply(m, first), second) == ledger_apply(ledger_apply(m, second), first),
{
    assert(ledger_apply(ledger_apply(m, first), second) =~= ledger_apply(ledger_apply(m, second), first));
}

} // verus!
