//! Benchmark samples and the statistics derived from them once all samples
//! are in.

use crate::limiter::Limiter;
use std::collections::HashMap;
use vstd::prelude::*;
use vstd::relations::{sorted_by, total_ordering};
use vstd::seq_lib::lemma_sorted_unique;

verus! {

broadcast use vstd::std_specs::hash::group_hash_axioms;

/// The outcome of one request: how long it took and the status that came
/// back, or no status where the transport failed.
#[derive(Debug, Clone, Copy, PartialEq, Eq, Structural)]
pub struct BenchmarkSample {
    pub latency_ms: u64,
    pub status_code: Option<u16>,
}

/// A request succeeded if and only if a status came back and it lies in
/// `[200, 400)`.
pub open spec fn status_succeeded(status_code: Option<u16>) -> bool {
    status_code matches Some(code) && 200 <= code < 400
}

impl BenchmarkSample {
    /// A sample.
    pub fn new(latency_ms: u64, status_code: Option<u16>) -> (s: Self)
        ensures
            s.latency_ms == latency_ms,
            s.status_code == status_code,
    {
        BenchmarkSample { latency_ms, status_code }
    }

    /// Whether the request counts as successful.
    pub fn is_successful(&self) -> (r: bool)
        ensures
            r == status_succeeded(self.status_code),
    {
        match self.status_code {
            Some(code) => 200 <= code && code < 400,
            None => false,
        }
    }
}

/// The latencies of the samples, in the order of the samples.
pub open spec fn latencies(samples: Seq<BenchmarkSample>) -> Seq<u64> {
    samples.map_values(|s: BenchmarkSample| s.latency_ms)
}

/// The order of latencies.
pub open spec fn at_most() -> spec_fn(u64, u64) -> bool {
    |a: u64, b: u64| a <= b
}

/// The latencies in ascending order.
pub open spec fn ascending(values: Seq<u64>) -> Seq<u64> {
    values.sort_by(at_most())
}

/// The number of successful samples.
pub open spec fn successes(samples: Seq<BenchmarkSample>) -> nat
    decreases samples.len(),
{
    if samples.len() == 0 {
        0
    } else {
        successes(samples.drop_last()) + if status_succeeded(samples.last().status_code) {
            1nat
        } else {
            0nat
        }
    }
}

/// The sum of the values.
pub open spec fn sum(values: Seq<u64>) -> nat
    decreases values.len(),
{
    if values.len() == 0 {
        0
    } else {
        sum(values.drop_last()) + values.last() as nat
    }
}

/// The histogram with one more occurrence of `code`.
pub open spec fn bumped(histogram: Map<u16, u64>, code: u16) -> Map<u16, u64> {
    histogram.insert(
        code,
        if histogram.contains_key(code) {
            (histogram[code] + 1) as u64
        } else {
            1
        },
    )
}

/// How often each status occurs among the samples. A sample without a status
/// counts for none.
pub open spec fn histogram(samples: Seq<BenchmarkSample>) -> Map<u16, u64>
    decreases samples.len(),
{
    if samples.len() == 0 {
        Map::empty()
    } else {
        match samples.last().status_code {
            Some(code) => bumped(histogram(samples.drop_last()), code),
            None => histogram(samples.drop_last()),
        }
    }
}

/// The index of the percentile `percent` among `len` sorted values: the
/// product of `len` and `percent / 100`, rounded down, and at most `len - 1`.
pub open spec fn percentile_index(len: nat, percent: nat) -> int {
    if len * percent / 100 < len {
        (len * percent / 100) as int
    } else {
        len - 1
    }
}

/// The value at the percentile: an exact order statistic, not interpolated.
/// It is 0 where there are no values.
pub open spec fn percentile_of(sorted: Seq<u64>, percent: nat) -> u64 {
    if sorted.len() == 0 {
        0
    } else {
        sorted[percentile_index(sorted.len(), percent)]
    }
}

/// The mean of the values, rounded down; 0 where there are none.
pub open spec fn mean(values: Seq<u64>) -> nat {
    if values.len() == 0 {
        0
    } else {
        sum(values) / values.len()
    }
}

/// The value at percentile `percent` of values that are sorted ascending.
pub fn percentile(sorted_data: &Vec<u64>, percent: u64) -> (value: u64)
    ensures
        value == percentile_of(sorted_data@, percent as nat),
{
    let len: usize = sorted_data.len();
    if len == 0 {
        return 0;
    }
    assert(len * percent <= u64::MAX * u64::MAX) by (nonlinear_arith)
        requires
            len <= u64::MAX,
            percent <= u64::MAX,
    ;
    let scaled: u128 = (len as u128) * (percent as u128) / 100;
    let index: usize = if scaled < len as u128 {
        scaled as usize
    } else {
        len - 1
    };
    sorted_data[index]
}

/// `slice::sort_unstable` on 64-bit numbers: afterwards the vector holds the
/// same numbers, each as often as before, in ascending order.
#[verifier::external_body]
fn sort_ascending(values: &mut Vec<u64>)
    ensures
        final(values)@.to_multiset() == old(values)@.to_multiset(),
        forall|i: int, j: int|
            0 <= i < j < final(values)@.len() ==> final(values)@[i] <= final(values)@[j],
{
    values.sort_unstable();
}

/// The aggregate of one benchmark run.
#[derive(Debug)]
pub struct BenchmarkStats {
    pub total_requests: usize,
    pub successful: u64,
    pub failed: u64,
    pub min_ms: u64,
    pub max_ms: u64,
    pub avg_ms: u64,
    pub p50_ms: u64,
    pub p95_ms: u64,
    pub p99_ms: u64,
    pub status_codes: HashMap<u16, u64>,
}

proof fn lemma_successes_bound(samples: Seq<BenchmarkSample>)
    ensures
        successes(samples) <= samples.len(),
    decreases samples.len(),
{
    if samples.len() > 0 {
        lemma_successes_bound(samples.drop_last());
    }
}

proof fn lemma_histogram_bound(samples: Seq<BenchmarkSample>)
    ensures
        forall|code: u16| #[trigger]
            histogram(samples).contains_key(code) ==> histogram(samples)[code] <= samples.len(),
        histogram(samples).dom().finite(),
    decreases samples.len(),
{
    if samples.len() > 0 {
        lemma_histogram_bound(samples.drop_last());
    }
}

proof fn lemma_sum_bound(values: Seq<u64>)
    ensures
        sum(values) <= values.len() * u64::MAX,
    decreases values.len(),
{
    if values.len() > 0 {
        lemma_sum_bound(values.drop_last());
        assert((values.len() - 1) * u64::MAX + u64::MAX == values.len() * u64::MAX)
            by (nonlinear_arith);
    }
}

proof fn lemma_mean_fits(total: nat, len: nat)
    requires
        len > 0,
        total <= len * u64::MAX,
    ensures
        total / len <= u64::MAX,
{
    assert(total / len <= u64::MAX) by (nonlinear_arith)
        requires
            len > 0,
            total <= len * u64::MAX,
    ;
}

/// A run in which every request succeeded counts all as successful and none
/// as failed.
pub proof fn lemma_all_successful(samples: Seq<BenchmarkSample>)
    requires
        forall|i: int| 0 <= i < samples.len() ==> status_succeeded(#[trigger] samples[i].status_code),
    ensures
        successes(samples) == samples.len(),
    decreases samples.len(),
{
    if samples.len() > 0 {
        lemma_all_successful(samples.drop_last());
    }
}

/// Reduces the samples of a finished run to its statistics.
pub fn summarize(samples: &Vec<BenchmarkSample>) -> (stats: BenchmarkStats)
    ensures
        stats.total_requests == samples@.len(),
        stats.successful == successes(samples@),
        stats.failed == samples@.len() - successes(samples@),
        stats.min_ms == percentile_of(ascending(latencies(samples@)), 0),
        stats.max_ms == percentile_of(ascending(latencies(samples@)), 100),
        stats.avg_ms == mean(latencies(samples@)),
        stats.p50_ms == percentile_of(ascending(latencies(samples@)), 50),
        stats.p95_ms == percentile_of(ascending(latencies(samples@)), 95),
        stats.p99_ms == percentile_of(ascending(latencies(samples@)), 99),
        stats.status_codes@ == histogram(samples@),
{
    let n: usize = samples.len();
    let mut times: Vec<u64> = Vec::new();
    let mut successful: u64 = 0;
    let mut total: u128 = 0;
    let mut status_codes: HashMap<u16, u64> = HashMap::new();
    let mut i: usize = 0;
    assert(samples@.take(0) =~= Seq::<BenchmarkSample>::empty());
    assert(latencies(samples@.take(0)) =~= Seq::<u64>::empty());
    while i < n
        invariant
            i <= n,
            n == samples@.len(),
            times@ == latencies(samples@.take(i as int)),
            successful == successes(samples@.take(i as int)),
            total == sum(latencies(samples@.take(i as int))),
            status_codes@ == histogram(samples@.take(i as int)),
        decreases n - i,
    {
        let sample = samples[i];
        let ghost before = samples@.take(i as int);
        let ghost after = samples@.take(i + 1);
        proof {
            assert(after.drop_last() =~= before);
            assert(after.last() == sample);
            assert(latencies(after) =~= latencies(before).push(sample.latency_ms));
            assert(latencies(after).drop_last() =~= latencies(before));
            lemma_successes_bound(before);
            lemma_histogram_bound(before);
            lemma_sum_bound(latencies(before));
            lemma_sum_bound(latencies(after));
            assert((i + 1) * u64::MAX <= u64::MAX * u64::MAX) by (nonlinear_arith)
                requires
                    i + 1 <= u64::MAX,
            ;
        }
        times.push(sample.latency_ms);
        total = total + sample.latency_ms as u128;
        if sample.is_successful() {
            successful = successful + 1;
        }
        match sample.status_code {
            Some(code) => {
                let count: u64 = match status_codes.get(&code) {
                    Some(seen) => *seen + 1,
                    None => 1,
                };
                status_codes.insert(code, count);
            },
            None => {},
        }
        i = i + 1;
    }
    assert(samples@.take(n as int) =~= samples@);
    let ghost unsorted = times@;
    sort_ascending(&mut times);
    proof {
        lemma_successes_bound(samples@);
        lemma_sum_bound(unsorted);
        assert(total_ordering(at_most()));
        unsorted.lemma_sort_by_ensures(at_most());
        assert(sorted_by(times@, at_most()));
        lemma_sorted_unique(times@, ascending(unsorted), at_most());
        assert(times@ == ascending(latencies(samples@)));
        assert(times@.len() == unsorted.len()) by {
            unsorted.to_multiset_ensures();
            times@.to_multiset_ensures();
        }
        if n > 0 {
            lemma_mean_fits(total as nat, n as nat);
        }
    }
    let avg_ms: u64 = if n == 0 {
        0
    } else {
        (total / (n as u128)) as u64
    };
    BenchmarkStats {
        total_requests: n,
        successful,
        failed: n as u64 - successful,
        min_ms: percentile(&times, 0),
        max_ms: percentile(&times, 100),
        avg_ms,
        p50_ms: percentile(&times, 50),
        p95_ms: percentile(&times, 95),
        p99_ms: percentile(&times, 99),
        status_codes,
    }
}

/// What the caller of a benchmark run does next.
#[derive(Debug, Clone, Copy, PartialEq, Eq, Structural)]
pub enum RunAction {
    /// Start the request with this index; hand its outcome to
    /// `record_request` when it is over.
    Launch(usize),
    /// Wait until a request that is in flight is over.
    Wait,
    /// Every request is over: the statistics can be drawn.
    Finished,
}

/// One benchmark run: `requests` requests, of which at most `concurrency`
/// are in flight at any time. A failed request is a sample like any other
/// and never ends the run.
#[derive(Debug)]
pub struct BenchmarkRun {
    requests: usize,
    launched: usize,
    limiter: Limiter,
    samples: Vec<BenchmarkSample>,
}

impl BenchmarkRun {
    /// The number of requests of the run.
    pub closed spec fn planned(self) -> nat {
        self.requests as nat
    }

    /// The number of requests that were started.
    pub closed spec fn started(self) -> nat {
        self.launched as nat
    }

    /// The number of requests that are in flight.
    pub closed spec fn in_flight(self) -> nat {
        self.limiter.held()
    }

    /// The largest number of requests that may be in flight at once.
    pub closed spec fn concurrency(self) -> nat {
        self.limiter.cap()
    }

    /// The samples recorded so far, in the order in which the requests ended.
    pub closed spec fn recorded(self) -> Seq<BenchmarkSample> {
        self.samples@
    }

    /// Every started request is either in flight or recorded, no more
    /// requests were started than planned, and no more are in flight than
    /// the concurrency allows.
    pub open spec fn wf(self) -> bool {
        &&& self.started() <= self.planned()
        &&& self.started() == self.recorded().len() + self.in_flight()
        &&& self.in_flight() <= self.concurrency()
    }

    /// A run of `requests` requests with at most `concurrency` in flight.
    pub fn new(requests: usize, concurrency: usize) -> (run: Self)
        ensures
            run.wf(),
            run.planned() == requests,
            run.concurrency() == concurrency,
            run.started() == 0,
            run.in_flight() == 0,
            run.recorded() == Seq::<BenchmarkSample>::empty(),
    {
        BenchmarkRun {
            requests,
            launched: 0,
            limiter: Limiter::new(concurrency),
            samples: Vec::new(),
        }
    }

    /// Says what to do next. A request is launched while requests are left
    /// and a permit is free; else the caller waits while samples are
    /// missing; else the run is finished.
    pub fn next_action(&mut self) -> (action: RunAction)
        requires
            old(self).wf(),
        ensures
            final(self).wf(),
            final(self).planned() == old(self).planned(),
            final(self).concurrency() == old(self).concurrency(),
            final(self).recorded() == old(self).recorded(),
            old(self).started() < old(self).planned() && old(self).in_flight() < old(self).concurrency() ==> {
                &&& action == RunAction::Launch(old(self).started() as usize)
                &&& final(self).started() == old(self).started() + 1
                &&& final(self).in_flight() == old(self).in_flight() + 1
            },
            !(old(self).started() < old(self).planned() && old(self).in_flight() < old(self).concurrency()) ==> {
                &&& final(self).started() == old(self).started()
                &&& final(self).in_flight() == old(self).in_flight()
                &&& action == if old(self).recorded().len() < old(self).planned() {
                    RunAction::Wait
                } else {
                    RunAction::Finished
                }
            },
    {
        if self.launched < self.requests && self.limiter.try_acquire() {
            let index = self.launched;
            self.launched = index + 1;
            RunAction::Launch(index)
        } else if self.samples.len() < self.requests {
            RunAction::Wait
        } else {
            RunAction::Finished
        }
    }

    /// Records the outcome of a request that was in flight and frees its
    /// permit. With no request in flight nothing is recorded and the result
    /// is `false`.
    pub fn record_request(&mut self, latency_ms: u64, status_code: Option<u16>) -> (recorded: bool)
        requires
            old(self).wf(),
        ensures
            final(self).wf(),
            final(self).planned() == old(self).planned(),
            final(self).concurrency() == old(self).concurrency(),
            final(self).started() == old(self).started(),
            recorded == (old(self).in_flight() > 0),
            recorded ==> final(self).in_flight() == old(self).in_flight() - 1 && final(self).recorded() == old(self).recorded().push(BenchmarkSample { latency_ms, status_code }),
            !recorded ==> final(self).in_flight() == old(self).in_flight() && final(self).recorded() == old(self).recorded(),
    {
        if self.limiter.outstanding() == 0 {
            return false;
        }
        self.limiter.release();
        self.samples.push(BenchmarkSample { latency_ms, status_code });
        true
    }

    /// The number of requests that are in flight.
    pub fn requests_in_flight(&self) -> (n: usize)
        ensures
            n == self.in_flight(),
    {
        self.limiter.outstanding()
    }

    /// Whether every planned request has been recorded.
    pub fn is_finished(&self) -> (r: bool)
        ensures
            r == (self.recorded().len() >= self.planned()),
    {
        self.samples.len() >= self.requests
    }

    /// The statistics of the run, once every planned request has been
    /// recorded; `None` before that, so that no partial aggregate is drawn.
    pub fn stats(&self) -> (r: Option<BenchmarkStats>)
        ensures
            r is Some <==> self.recorded().len() >= self.planned(),
            r matches Some(stats) ==> {
                &&& stats.total_requests == self.recorded().len()
                &&& stats.successful == successes(self.recorded())
                &&& stats.failed == self.recorded().len() - successes(self.recorded())
                &&& stats.min_ms == percentile_of(ascending(latencies(self.recorded())), 0)
                &&& stats.max_ms == percentile_of(ascending(latencies(self.recorded())), 100)
                &&& stats.avg_ms == mean(latencies(self.recorded()))
                &&& stats.p50_ms == percentile_of(ascending(latencies(self.recorded())), 50)
                &&& stats.p95_ms == percentile_of(ascending(latencies(self.recorded())), 95)
                &&& stats.p99_ms == percentile_of(ascending(latencies(self.recorded())), 99)
                &&& stats.status_codes@ == histogram(self.recorded())
            },
    {
        if self.samples.len() >= self.requests {
            Some(summarize(&self.samples))
        } else {
            None
        }
    }
}

} // verus!
