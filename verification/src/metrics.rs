//! What a client records of its requests, and the summary it draws from the record.

use std::collections::HashMap;
use std::time::Duration;
use vstd::prelude::*;
use vstd::seq_lib::{to_multiset_build, to_multiset_insert};
use crate::clock::{current_timestamp_millis, duration_millis};
use crate::message::option_string_view;

verus! {

/// The record of one request.
#[derive(Debug, PartialEq, Eq)]
pub struct RequestMetric {
    pub request_id: u64,
    /// When the record was made, in milliseconds since the Unix epoch.
    pub start_time: u64,
    pub latency_ms: u64,
    pub success: bool,
    pub failure_reason: Option<String>,
    pub assigned_server_id: Option<u32>,
}

/// The model of a [`RequestMetric`].
pub struct RequestMetricView {
    pub request_id: u64,
    pub start_time: u64,
    pub latency_ms: u64,
    pub success: bool,
    pub failure_reason: Option<Seq<char>>,
    pub assigned_server_id: Option<u32>,
}

impl View for RequestMetric {
    type V = RequestMetricView;

    open spec fn view(&self) -> RequestMetricView {
        RequestMetricView {
            request_id: self.request_id,
            start_time: self.start_time,
            latency_ms: self.latency_ms,
            success: self.success,
            failure_reason: option_string_view(self.failure_reason),
            assigned_server_id: self.assigned_server_id,
        }
    }
}

/// The summary of a record. Latencies are those of the requests that
/// succeeded, in milliseconds; where none succeeded they are all 0.
#[derive(Debug)]
pub struct AggregatedStats {
    pub total_requests: usize,
    pub successful_requests: usize,
    pub failed_requests: usize,
    pub latency_min_ms: u64,
    pub latency_max_ms: u64,
    pub latency_sum_ms: u128,
    pub latency_p50_ms: u64,
    pub latency_p95_ms: u64,
    pub latency_p99_ms: u64,
    /// For each server, the number of requests that were assigned to it.
    pub server_distribution: HashMap<u32, usize>,
    /// For each reason, the number of failed requests that gave it.
    pub failure_reasons: Vec<(String, usize)>,
}

/// The model of a record.
pub open spec fn metrics_view(requests: Seq<RequestMetric>) -> Seq<RequestMetricView> {
    requests.map_values(|r: RequestMetric| r@)
}

/// The latencies of the requests that succeeded, in the order of the record.
pub open spec fn spec_successful_latencies(requests: Seq<RequestMetricView>) -> Seq<u64>
    decreases requests.len(),
{
    if requests.len() == 0 {
        Seq::empty()
    } else if requests.last().success {
        spec_successful_latencies(requests.drop_last()).push(requests.last().latency_ms)
    } else {
        spec_successful_latencies(requests.drop_last())
    }
}

/// The number of requests that were assigned to server `id`.
pub open spec fn spec_assigned_count(requests: Seq<RequestMetricView>, id: u32) -> nat
    decreases requests.len(),
{
    if requests.len() == 0 {
        0
    } else {
        spec_assigned_count(requests.drop_last(), id) + (if requests.last().assigned_server_id == Some(id) {
            1nat
        } else {
            0nat
        })
    }
}

/// The number of failed requests that gave `reason`.
pub open spec fn spec_reason_count(requests: Seq<RequestMetricView>, reason: Seq<char>) -> nat
    decreases requests.len(),
{
    if requests.len() == 0 {
        0
    } else {
        spec_reason_count(requests.drop_last(), reason) + (if !requests.last().success
            && requests.last().failure_reason == Some(reason) {
            1nat
        } else {
            0nat
        })
    }
}

/// The sum of some latencies.
pub open spec fn spec_sum(values: Seq<u64>) -> nat
    decreases values.len(),
{
    if values.len() == 0 {
        0
    } else {
        spec_sum(values.drop_last()) + values.last() as nat
    }
}

/// Whether the values ascend.
pub open spec fn spec_is_sorted(values: Seq<u64>) -> bool {
    forall|i: int, j: int| 0 <= i <= j < values.len() ==> values[i] <= values[j]
}

/// The index of the `pct`-th percentile among `n` ascending values:
/// `pct / 100 * (n - 1)` rounded to the nearest whole number, a half going
/// down, and never beyond the last value.
pub open spec fn spec_percentile_index(n: nat, pct: nat) -> int {
    let index = (pct * (n - 1) * 2 + 99) / 200;
    if index > n - 1 {
        n - 1
    } else {
        index
    }
}

/// The `pct`-th percentile of ascending values; 0 where there are none.
pub open spec fn spec_percentile(sorted: Seq<u64>, pct: nat) -> u64 {
    if sorted.len() == 0 {
        0
    } else {
        sorted[spec_percentile_index(sorted.len(), pct)]
    }
}

/// Whether the latency figures of `stats` are drawn from the ascending values `sorted`.
pub open spec fn spec_latency_summary(stats: AggregatedStats, sorted: Seq<u64>) -> bool {
    &&& stats.latency_sum_ms == spec_sum(sorted)
    &&& stats.latency_p50_ms == spec_percentile(sorted, 50)
    &&& stats.latency_p95_ms == spec_percentile(sorted, 95)
    &&& stats.latency_p99_ms == spec_percentile(sorted, 99)
    &&& stats.latency_min_ms == (if sorted.len() == 0 {
        0
    } else {
        sorted[0]
    })
    &&& stats.latency_max_ms == (if sorted.len() == 0 {
        0
    } else {
        sorted.last()
    })
}

/// The model of a tally of reasons.
pub open spec fn reasons_view(tally: Seq<(String, usize)>) -> Seq<(Seq<char>, usize)> {
    tally.map_values(|row: (String, usize)| (row.0@, row.1))
}

/// Whether `tally` counts the reasons of the failed requests: each reason
/// that was given has one row, with the number of times it was given.
pub open spec fn spec_tallies_reasons(tally: Seq<(Seq<char>, usize)>, requests: Seq<RequestMetricView>) -> bool {
    &&& forall|i: int, j: int| 0 <= i < j < tally.len() ==> (#[trigger] tally[i]).0 != (#[trigger] tally[j]).0
    &&& forall|i: int|
        0 <= i < tally.len() ==> (#[trigger] tally[i]).1 == spec_reason_count(requests, tally[i].0) && tally[i].1 > 0
    &&& forall|reason: Seq<char>| #[trigger]
        spec_reason_count(requests, reason) > 0 ==> exists|i: int| 0 <= i < tally.len() && (#[trigger] tally[i]).0 == reason
}

/// Whether `distribution` counts the assignments: each server that a request
/// was assigned to has an entry, with the number of those requests.
pub open spec fn spec_tallies_servers(distribution: Map<u32, usize>, requests: Seq<RequestMetricView>) -> bool {
    forall|id: u32|
        (#[trigger] distribution.contains_key(id) <==> spec_assigned_count(requests, id) > 0) && (
        distribution.contains_key(id) ==> distribution[id] == spec_assigned_count(requests, id))
}

/// The `pct`-th percentile of ascending values; 0 where there are none.
pub fn percentile(sorted_data: &[u64], pct: u64) -> (value: u64)
    ensures
        value == spec_percentile(sorted_data@, pct as nat),
{
    let n = sorted_data.len();
    if n == 0 {
        return 0;
    }
    let last: u128 = (n - 1) as u128;
    if pct >= 100 {
        assert(pct * last >= 100 * last) by (nonlinear_arith)
            requires
                pct >= 100,
                last >= 0,
        ;
        return sorted_data[n - 1];
    }
    assert(pct * last <= 100 * last) by (nonlinear_arith)
        requires
            pct < 100,
            last >= 0,
    ;
    let index: u128 = ((pct as u128) * last * 2 + 99) / 200;
    if index > last {
        sorted_data[n - 1]
    } else {
        sorted_data[index as usize]
    }
}

/// The values in ascending order.
pub fn sorted_latencies(values: &Vec<u64>) -> (sorted: Vec<u64>)
    ensures
        spec_is_sorted(sorted@),
        sorted@.to_multiset() == values@.to_multiset(),
        sorted@.len() == values@.len(),
{
    let mut sorted: Vec<u64> = Vec::new();
    let mut i: usize = 0;
    assert(values@.subrange(0, 0) =~= sorted@);
    while i < values.len()
        invariant
            i <= values@.len(),
            sorted@.len() == i,
            spec_is_sorted(sorted@),
            sorted@.to_multiset() == values@.subrange(0, i as int).to_multiset(),
        decreases values@.len() - i,
    {
        let value = values[i];
        let mut at: usize = 0;
        while at < sorted.len() && sorted[at] <= value
            invariant
                at <= sorted@.len(),
                forall|j: int| 0 <= j < at ==> sorted@[j] <= value,
            decreases sorted@.len() - at,
        {
            at += 1;
        }
        let ghost before = sorted@;
        sorted.insert(at, value);
        proof {
            to_multiset_insert(before, at as int, value);
            to_multiset_build(values@.subrange(0, i as int), value);
            assert(values@.subrange(0, i + 1) =~= values@.subrange(0, i as int).push(value));
            assert forall|a: int, b: int| 0 <= a <= b < sorted@.len() implies sorted@[a] <= sorted@[b] by {
                let a0 = if a < at { a } else { a - 1 };
                let b0 = if b < at { b } else { b - 1 };
                if a != at && b != at {
                    assert(sorted@[a] == before[a0]);
                    assert(sorted@[b] == before[b0]);
                } else if a == at && b != at {
                    assert(sorted@[b] == before[b0]);
                    assert(before[at as int] <= before[b0]);
                } else if a != at && b == at {
                    assert(sorted@[a] == before[a0]);
                }
            }
        }
        i += 1;
    }
    assert(values@.subrange(0, values@.len() as int) =~= values@);
    sorted
}

/// The sum of some latencies.
pub fn sum_latencies(values: &Vec<u64>) -> (sum: u128)
    ensures
        sum == spec_sum(values@),
{
    let mut sum: u128 = 0;
    let mut i: usize = 0;
    assert(values@.subrange(0, 0) =~= Seq::<u64>::empty());
    while i < values.len()
        invariant
            i <= values@.len(),
            sum == spec_sum(values@.subrange(0, i as int)),
            sum <= i * u64::MAX,
        decreases values@.len() - i,
    {
        proof {
            assert(values@.subrange(0, i + 1).drop_last() =~= values@.subrange(0, i as int));
        }
        sum = sum + values[i] as u128;
        i += 1;
    }
    assert(values@.subrange(0, values@.len() as int) =~= values@);
    sum
}

/// The counts never exceed the length of the record.
proof fn lemma_counts_bounded(requests: Seq<RequestMetricView>, id: u32, reason: Seq<char>)
    ensures
        spec_assigned_count(requests, id) <= requests.len(),
        spec_reason_count(requests, reason) <= requests.len(),
        spec_successful_latencies(requests).len() <= requests.len(),
    decreases requests.len(),
{
    if requests.len() > 0 {
        lemma_counts_bounded(requests.drop_last(), id, reason);
    }
}

/// The record of the requests of one client.
#[derive(Debug)]
pub struct ClientMetrics {
    client_name: String,
    started_at_ms: u64,
    requests: Vec<RequestMetric>,
}

impl ClientMetrics {
    /// The name of the client.
    pub closed spec fn name(&self) -> Seq<char> {
        self.client_name@
    }

    /// The records, in the order they were made.
    pub closed spec fn records(&self) -> Seq<RequestMetricView> {
        metrics_view(self.requests@)
    }

    /// When the record was begun, in milliseconds since the Unix epoch.
    pub closed spec fn started_at(&self) -> u64 {
        self.started_at_ms
    }

    /// An empty record, begun now.
    pub fn new(client_name: String) -> (metrics: Self)
        ensures
            metrics.name() == client_name@,
            metrics.records() == Seq::<RequestMetricView>::empty(),
    {
        let metrics = ClientMetrics { client_name, started_at_ms: current_timestamp_millis(), requests: Vec::new() };
        assert(metrics.records() =~= Seq::<RequestMetricView>::empty());
        metrics
    }

    pub fn client_name(&self) -> (name: String)
        ensures
            name@ == self.name(),
    {
        self.client_name.clone()
    }

    /// When the record was begun, in milliseconds since the Unix epoch.
    pub fn started_at_ms(&self) -> (ms: u64)
        ensures
            ms == self.started_at(),
    {
        self.started_at_ms
    }

    /// The number of records.
    pub fn len(&self) -> (n: usize)
        ensures
            n == self.records().len(),
    {
        self.requests.len()
    }

    /// Appends a record as it is.
    pub fn record(&mut self, metric: RequestMetric)
        ensures
            final(self).name() == old(self).name(),
            final(self).started_at() == old(self).started_at(),
            final(self).records() == old(self).records().push(metric@),
    {
        let ghost m = metric@;
        self.requests.push(metric);
        assert(self.records() =~= old(self).records().push(m));
    }

    /// Appends the record of a request that has just ended: stamped with the
    /// time of the clock, and with the whole milliseconds of `latency`.
    pub fn record_request(
        &mut self,
        request_id: u64,
        latency: Duration,
        success: bool,
        failure_reason: Option<String>,
        assigned_server_id: Option<u32>,
    )
        ensures
            final(self).name() == old(self).name(),
            final(self).started_at() == old(self).started_at(),
            final(self).records().len() == old(self).records().len() + 1,
            final(self).records().drop_last() == old(self).records(),
            final(self).records().last().request_id == request_id,
            final(self).records().last().success == success,
            final(self).records().last().failure_reason == option_string_view(failure_reason),
            final(self).records().last().assigned_server_id == assigned_server_id,
    {
        let metric = RequestMetric {
            request_id,
            start_time: current_timestamp_millis(),
            latency_ms: duration_millis(&latency),
            success,
            failure_reason,
            assigned_server_id,
        };
        let ghost m = metric@;
        self.record(metric);
        assert(old(self).records().push(m).drop_last() =~= old(self).records());
    }

    /// The latencies of the requests that succeeded, in the order of the record.
    pub fn successful_latencies(&self) -> (latencies: Vec<u64>)
        ensures
            latencies@ == spec_successful_latencies(self.records()),
    {
        let ghost all = self.records();
        let mut latencies: Vec<u64> = Vec::new();
        let mut i: usize = 0;
        assert(all.subrange(0, 0) =~= Seq::<RequestMetricView>::empty());
        while i < self.requests.len()
            invariant
                i <= self.requests@.len(),
                all == metrics_view(self.requests@),
                latencies@ == spec_successful_latencies(all.subrange(0, i as int)),
            decreases self.requests@.len() - i,
        {
            proof {
                assert(all.subrange(0, i + 1).drop_last() =~= all.subrange(0, i as int));
                assert(all.subrange(0, i + 1).last() == self.requests@[i as int]@);
            }
            if self.requests[i].success {
                latencies.push(self.requests[i].latency_ms);
            }
            i += 1;
        }
        assert(all.subrange(0, all.len() as int) =~= all);
        latencies
    }

    /// For each server, the number of requests that were assigned to it.
    pub fn server_distribution(&self) -> (distribution: HashMap<u32, usize>)
        ensures
            spec_tallies_servers(distribution@, self.records()),
    {
        let ghost all = self.records();
        let mut distribution: HashMap<u32, usize> = HashMap::new();
        let mut i: usize = 0;
        assert(all.subrange(0, 0) =~= Seq::<RequestMetricView>::empty());
        while i < self.requests.len()
            invariant
                i <= self.requests@.len(),
                all == metrics_view(self.requests@),
                spec_tallies_servers(distribution@, all.subrange(0, i as int)),
            decreases self.requests@.len() - i,
        {
            let ghost done = all.subrange(0, i as int);
            let ghost next = all.subrange(0, i + 1);
            let ghost counted = distribution@;
            proof {
                assert(next.drop_last() =~= done);
                assert(next.last() == self.requests@[i as int]@);
            }
            match self.requests[i].assigned_server_id {
                Some(id) => {
                    proof {
                        lemma_counts_bounded(done, id, Seq::empty());
                        assert(counted.contains_key(id) <==> spec_assigned_count(done, id) > 0);
                    }
                    let so_far: usize = match distribution.get(&id) {
                        Some(n) => *n,
                        None => 0,
                    };
                    distribution.insert(id, so_far + 1);
                    proof {
                        assert forall|other: u32|
                            (#[trigger] distribution@.contains_key(other) <==> spec_assigned_count(next, other) > 0)
                                && (distribution@.contains_key(other) ==> distribution@[other] == spec_assigned_count(
                                next,
                                other,
                            )) by {
                            assert(counted.contains_key(other) <==> spec_assigned_count(done, other) > 0);
                        }
                    }
                },
                None => {
                    proof {
                        assert forall|other: u32|
                            (#[trigger] distribution@.contains_key(other) <==> spec_assigned_count(next, other) > 0)
                                && (distribution@.contains_key(other) ==> distribution@[other] == spec_assigned_count(
                                next,
                                other,
                            )) by {
                            assert(counted.contains_key(other) <==> spec_assigned_count(done, other) > 0);
                        }
                    }
                },
            }
            i += 1;
        }
        assert(all.subrange(0, all.len() as int) =~= all);
        distribution
    }

    /// For each reason, the number of failed requests that gave it.
    pub fn failure_reasons(&self) -> (tally: Vec<(String, usize)>)
        ensures
            spec_tallies_reasons(reasons_view(tally@), self.records()),
    {
        let ghost all = self.records();
        let mut tally: Vec<(String, usize)> = Vec::new();
        let mut i: usize = 0;
        assert(all.subrange(0, 0) =~= Seq::<RequestMetricView>::empty());
        while i < self.requests.len()
            invariant
                i <= self.requests@.len(),
                all == metrics_view(self.requests@),
                spec_tallies_reasons(reasons_view(tally@), all.subrange(0, i as int)),
            decreases self.requests@.len() - i,
        {
            let ghost done = all.subrange(0, i as int);
            let ghost next = all.subrange(0, i + 1);
            let ghost rows = reasons_view(tally@);
            proof {
                assert(next.drop_last() =~= done);
                assert(next.last() == self.requests@[i as int]@);
            }
            let request = &self.requests[i];
            let mut counted = false;
            if !request.success {
                match &request.failure_reason {
                    Some(reason) => {
                        counted = true;
                        let mut at: usize = 0;
                        while at < tally.len() && !(tally[at].0 == *reason)
                            invariant
                                at <= tally@.len(),
                                rows == reasons_view(tally@),
                                forall|j: int| 0 <= j < at ==> (#[trigger] rows[j]).0 != reason@,
                            decreases tally@.len() - at,
                        {
                            assert(rows[at as int].0 == tally@[at as int].0@);
                            at += 1;
                        }
                        if at < tally.len() {
                            assert(rows[at as int].0 == tally@[at as int].0@);
                            proof {
                                lemma_counts_bounded(done, 0, reason@);
                            }
                            let n = tally[at].1;
                            tally.set(at, (reason.clone(), n + 1));
                            proof {
                                let after = reasons_view(tally@);
                                assert(after =~= rows.update(at as int, (reason@, (n + 1) as usize)));
                                assert forall|q: Seq<char>| #[trigger]
                                    spec_reason_count(next, q) > 0 implies exists|j: int|
                                    0 <= j < after.len() && (#[trigger] after[j]).0 == q by {
                                    if q == reason@ {
                                        assert(after[at as int].0 == q);
                                    } else {
                                        assert(spec_reason_count(done, q) > 0);
                                        let j = choose|j: int| 0 <= j < rows.len() && (#[trigger] rows[j]).0 == q;
                                        assert(after[j].0 == q);
                                    }
                                }
                                assert forall|a: int| 0 <= a < after.len() implies (#[trigger] after[a]).1
                                    == spec_reason_count(next, after[a].0) && after[a].1 > 0 by {
                                    if a != at {
                                        assert(after[a] == rows[a]);
                                        assert(rows[a].0 != rows[at as int].0);
                                    }
                                }
                                assert forall|a: int, b: int| 0 <= a < b < after.len() implies (#[trigger] after[a]).0
                                    != (#[trigger] after[b]).0 by {
                                    assert(after[a].0 == rows[a].0);
                                    assert(after[b].0 == rows[b].0);
                                }
                            }
                        } else {
                            tally.push((reason.clone(), 1));
                            proof {
                                let after = reasons_view(tally@);
                                assert(after =~= rows.push((reason@, 1usize)));
                                assert(spec_reason_count(done, reason@) == 0) by {
                                    if spec_reason_count(done, reason@) > 0 {
                                        let j = choose|j: int|
                                            0 <= j < rows.len() && (#[trigger] rows[j]).0 == reason@;
                                        assert(rows[j].0 != reason@);
                                    }
                                }
                                assert forall|q: Seq<char>| #[trigger]
                                    spec_reason_count(next, q) > 0 implies exists|j: int|
                                    0 <= j < after.len() && (#[trigger] after[j]).0 == q by {
                                    if q == reason@ {
                                        assert(after[rows.len() as int].0 == q);
                                    } else {
                                        assert(spec_reason_count(done, q) > 0);
                                        let j = choose|j: int| 0 <= j < rows.len() && (#[trigger] rows[j]).0 == q;
                                        assert(after[j].0 == q);
                                    }
                                }
                                assert forall|a: int| 0 <= a < after.len() implies (#[trigger] after[a]).1
                                    == spec_reason_count(next, after[a].0) && after[a].1 > 0 by {
                                    if a < rows.len() {
                                        assert(after[a] == rows[a]);
                                    }
                                }
                                assert forall|a: int, b: int| 0 <= a < b < after.len() implies (#[trigger] after[a]).0
                                    != (#[trigger] after[b]).0 by {
                                    assert(after[a] == rows[a]);
                                    if b < rows.len() {
                                        assert(after[b] == rows[b]);
                                    }
                                }
                            }
                        }
                    },
                    None => {},
                }
            }
            proof {
                if !counted {
                    let after = reasons_view(tally@);
                    assert(after == rows);
                    assert forall|q: Seq<char>| spec_reason_count(next, q) == spec_reason_count(done, q) by {}
                    assert forall|q: Seq<char>| #[trigger]
                        spec_reason_count(next, q) > 0 implies exists|j: int|
                        0 <= j < after.len() && (#[trigger] after[j]).0 == q by {
                        assert(spec_reason_count(done, q) > 0);
                    }
                }
            }
            i += 1;
        }
        assert(all.subrange(0, all.len() as int) =~= all);
        tally
    }

    /// The summary of the record.
    pub fn aggregate(&self) -> (stats: AggregatedStats)
        ensures
            stats.total_requests == self.records().len(),
            stats.successful_requests == spec_successful_latencies(self.records()).len(),
            stats.failed_requests == stats.total_requests - stats.successful_requests,
            exists|sorted: Seq<u64>|
                spec_is_sorted(sorted) && sorted.to_multiset() == spec_successful_latencies(
                    self.records(),
                ).to_multiset() && #[trigger] spec_latency_summary(stats, sorted),
            spec_tallies_servers(stats.server_distribution@, self.records()),
            spec_tallies_reasons(reasons_view(stats.failure_reasons@), self.records()),
    {
        let latencies = self.successful_latencies();
        let sorted = sorted_latencies(&latencies);
        proof {
            lemma_counts_bounded(self.records(), 0, Seq::empty());
        }
        let total = self.requests.len();
        let successful = latencies.len();
        let n = sorted.len();
        let stats = AggregatedStats {
            total_requests: total,
            successful_requests: successful,
            failed_requests: total - successful,
            latency_min_ms: if n == 0 {
                0
            } else {
                sorted[0]
            },
            latency_max_ms: if n == 0 {
                0
            } else {
                sorted[n - 1]
            },
            latency_sum_ms: sum_latencies(&sorted),
            latency_p50_ms: percentile(sorted.as_slice(), 50),
            latency_p95_ms: percentile(sorted.as_slice(), 95),
            latency_p99_ms: percentile(sorted.as_slice(), 99),
            server_distribution: self.server_distribution(),
            failure_reasons: self.failure_reasons(),
        };
        assert(spec_latency_summary(stats, sorted@));
        stats
    }
}

} // verus!
