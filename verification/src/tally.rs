//! The running tally of one load test: what the request tasks report, and
//! the progress and final reports computed from it.

use vstd::prelude::*;

use crate::engine::{min_usize, MAX_REQUESTS};
use crate::stats::{
    ascending, count_positive, lemma_ascending, lemma_percentile_is_sample,
    lemma_percentile_monotone, lemma_positive_extremes, max_positive, min_positive, percentile,
    sorted_latencies, spec_percentile, spec_spread_us, start_spread_us,
};

verus! {

/// The longest latency a request can report, in milliseconds: that of the
/// longest `std::time::Duration`.
pub const MAX_LATENCY_MS: u128 = 18_446_744_073_709_551_615_999;

/// A response status counts as a success when it is in the 2xx range.
pub open spec fn spec_is_success(status: u16) -> bool {
    200 <= status && status < 300
}

/// Whether an HTTP status code is a success (200 to 299).
pub fn is_success_status(status: u16) -> (r: bool)
    ensures
        r == spec_is_success(status),
{
    200 <= status && status < 300
}

/// Sum of a sequence of latencies.
pub open spec fn latency_total(s: Seq<u128>) -> int
    decreases s.len(),
{
    if s.len() == 0 {
        0
    } else {
        latency_total(s.drop_last()) + s.last()
    }
}

/// The abstract state of a tally.
pub struct TallyModel {
    /// Requests the run fires.
    pub total: nat,
    /// Requests that have finished, either way.
    pub completed: nat,
    /// Requests answered with a 2xx status.
    pub successes: nat,
    /// Requests that failed or were answered with another status.
    pub failures: nat,
    /// Latency of each success, in milliseconds, in the order recorded.
    pub latencies: Seq<u128>,
    /// Start time of each request in nanoseconds since the run began; 0 for a
    /// request that has not started.
    pub start_times: Seq<u64>,
}

/// The counters, latencies and start times of one run.
pub struct RunTally {
    total: usize,
    completed: usize,
    successes: usize,
    failures: usize,
    latencies: Vec<u128>,
    latency_sum: u128,
    start_times: Vec<u64>,
}

impl View for RunTally {
    type V = TallyModel;

    closed spec fn view(&self) -> TallyModel {
        TallyModel {
            total: self.total as nat,
            completed: self.completed as nat,
            successes: self.successes as nat,
            failures: self.failures as nat,
            latencies: self.latencies@,
            start_times: self.start_times@,
        }
    }
}

/// A progress report: the counters and the latency statistics so far.
#[derive(Debug, Clone, Copy, PartialEq, Eq, Structural)]
pub struct ProgressReport {
    pub completed: usize,
    pub total: usize,
    pub successes: usize,
    pub failures: usize,
    /// Number of latencies recorded (one per success).
    pub latency_count: usize,
    /// Sum of the latencies recorded, in milliseconds.
    pub latency_sum: u128,
    pub p95_latency_ms: u128,
}

/// The final report of a run.
#[derive(Debug, Clone, Copy, PartialEq, Eq, Structural)]
pub struct DoneReport {
    pub completed: usize,
    pub total: usize,
    pub successes: usize,
    pub failures: usize,
    pub total_time_ms: u64,
    /// Number of latencies recorded (one per success).
    pub latency_count: usize,
    /// Sum of the latencies recorded, in milliseconds.
    pub latency_sum: u128,
    pub p50_latency_ms: u128,
    pub p95_latency_ms: u128,
    pub p99_latency_ms: u128,
    /// Distance between the first and the last request start, in microseconds.
    pub spread_us: u64,
}

/// A well-formed tally: every finished request is counted once, as a success
/// or as a failure; one latency per success; at most `MAX_REQUESTS` requests.
pub open spec fn model_wf(m: TallyModel) -> bool {
    &&& m.completed == m.successes + m.failures
    &&& m.completed <= m.total
    &&& m.total <= MAX_REQUESTS
    &&& m.latencies.len() == m.successes
    &&& m.start_times.len() == m.total
    &&& forall|i: int| 0 <= i < m.latencies.len() ==> #[trigger] m.latencies[i] <= MAX_LATENCY_MS
}

/// The tally after the request that began `since_start_ns` after the run
/// started recorded its start at `index`.
pub open spec fn after_start(m: TallyModel, index: int, since_start_ns: u64) -> TallyModel {
    TallyModel { start_times: m.start_times.update(index, since_start_ns), ..m }
}

/// The tally after one request finished: `status` is the response status,
/// or `None` when no response came.
pub open spec fn after_outcome(m: TallyModel, status: Option<u16>, latency_ms: u128) -> TallyModel {
    let ok = status matches Some(s) && spec_is_success(s);
    TallyModel {
        completed: m.completed + 1,
        successes: if ok { m.successes + 1 } else { m.successes },
        failures: if ok { m.failures } else { m.failures + 1 },
        latencies: if ok { m.latencies.push(latency_ms) } else { m.latencies },
        ..m
    }
}

/// The counters of `b` are those of `a` or later ones: the same total, and
/// no fewer completions, successes or failures.
pub open spec fn counters_advance(a: TallyModel, b: TallyModel) -> bool {
    &&& b.total == a.total
    &&& a.completed <= b.completed
    &&& a.successes <= b.successes
    &&& a.failures <= b.failures
}

/// The counters of a report fit together: successes and failures make up the
/// completions, no more completed than the total, at most `MAX_REQUESTS`,
/// one latency per success.
pub open spec fn report_counts_consistent(
    completed: usize,
    total: usize,
    successes: usize,
    failures: usize,
    latency_count: usize,
) -> bool {
    &&& completed == successes + failures
    &&& completed <= total
    &&& total <= MAX_REQUESTS
    &&& latency_count == successes
}

impl RunTally {
    /// The tally is well formed and its running latency sum is exact.
    pub closed spec fn wf(&self) -> bool {
        &&& model_wf(self@)
        &&& self.latency_sum == latency_total(self.latencies@)
    }

    /// What a well-formed tally guarantees: every finished request counted
    /// once as a success or a failure, no more finished than the total, at
    /// most `MAX_REQUESTS` requests, one latency per success, one start time
    /// per request.
    pub proof fn lemma_wf(&self)
        requires
            self.wf(),
        ensures
            model_wf(self@),
    {
    }

    /// A fresh tally for a run asked to fire `requests` requests: the run fires
    /// at most `MAX_REQUESTS`, nothing has started or finished.
    pub fn new(requests: usize) -> (r: RunTally)
        ensures
            r.wf(),
            r@.total == min_usize(requests, MAX_REQUESTS),
            r@.completed == 0,
            r@.successes == 0,
            r@.failures == 0,
            r@.latencies == Seq::<u128>::empty(),
            r@.start_times == Seq::new(r@.total, |i: int| 0u64),
    {
        let total = if requests <= MAX_REQUESTS { requests } else { MAX_REQUESTS };
        let mut start_times: Vec<u64> = Vec::new();
        let mut i: usize = 0;
        while i < total
            invariant
                i <= total,
                start_times@ == Seq::new(i as nat, |k: int| 0u64),
            decreases total - i,
        {
            start_times.push(0);
            i = i + 1;
        }
        let r = RunTally {
            total,
            completed: 0,
            successes: 0,
            failures: 0,
            latencies: Vec::new(),
            latency_sum: 0,
            start_times,
        };
        proof {
            assert(r.latencies@.len() == 0);
        }
        r
    }

    /// Number of requests the run fires.
    pub fn total(&self) -> (r: usize)
        ensures
            r == self@.total,
    {
        self.total
    }

    /// Number of requests that have finished.
    pub fn completed(&self) -> (r: usize)
        ensures
            r == self@.completed,
    {
        self.completed
    }

    /// Records that request `index` started `since_start_ns` nanoseconds
    /// after the run began.
    pub fn record_start(&mut self, index: usize, since_start_ns: u64)
        requires
            old(self).wf(),
            index < old(self)@.total,
        ensures
            final(self).wf(),
            final(self)@ == after_start(old(self)@, index as int, since_start_ns),
            counters_advance(old(self)@, final(self)@),
    {
        self.start_times.set(index, since_start_ns);
    }

    /// Records the outcome of one finished request: a response with a 2xx
    /// status is a success whose latency is kept; no response, or another
    /// status, is a failure.
    pub fn record_outcome(&mut self, status: Option<u16>, latency_ms: u128)
        requires
            old(self).wf(),
            old(self)@.completed < old(self)@.total,
            latency_ms <= MAX_LATENCY_MS,
        ensures
            final(self).wf(),
            final(self)@ == after_outcome(old(self)@, status, latency_ms),
            counters_advance(old(self)@, final(self)@),
            final(self)@.completed == old(self)@.completed + 1,
    {
        let ok = match status {
            Some(s) => is_success_status(s),
            None => false,
        };
        if ok {
            proof {
                lemma_latency_total_bound(self.latencies@);
                assert(self.latencies@.len() < MAX_REQUESTS);
            }
            let ghost before = self.latencies@;
            self.latencies.push(latency_ms);
            proof {
                assert(self.latencies@.drop_last() =~= before);
            }
            self.latency_sum = self.latency_sum + latency_ms;
            self.successes = self.successes + 1;
        } else {
            self.failures = self.failures + 1;
        }
        self.completed = self.completed + 1;
    }

    /// Whether every request of the run has finished.
    pub fn is_finished(&self) -> (r: bool)
        requires
            self.wf(),
        ensures
            r == (self@.completed == self@.total),
    {
        self.completed >= self.total
    }

    /// The counters so far, the sum of the latencies, and their 95th
    /// percentile.
    pub fn progress(&self) -> (r: ProgressReport)
        requires
            self.wf(),
        ensures
            r.completed == self@.completed,
            r.total == self@.total,
            r.successes == self@.successes,
            r.failures == self@.failures,
            r.latency_count == self@.latencies.len(),
            r.latency_sum == latency_total(self@.latencies),
            r.p95_latency_ms == spec_percentile(ascending(self@.latencies), 95),
            report_counts_consistent(r.completed, r.total, r.successes, r.failures, r.latency_count),
    {
        proof {
            self.lemma_wf();
        }
        let sorted = sorted_latencies(&self.latencies);
        ProgressReport {
            completed: self.completed,
            total: self.total,
            successes: self.successes,
            failures: self.failures,
            latency_count: self.latencies.len(),
            latency_sum: self.latency_sum,
            p95_latency_ms: percentile(sorted.as_slice(), 95),
        }
    }

    /// The final report of a run that took `elapsed_ms` milliseconds.
    pub fn done_report(&self, elapsed_ms: u64) -> (r: DoneReport)
        requires
            self.wf(),
        ensures
            r.completed == self@.completed,
            r.total == self@.total,
            r.successes == self@.successes,
            r.failures == self@.failures,
            r.total_time_ms == elapsed_ms,
            r.latency_count == self@.latencies.len(),
            r.latency_sum == latency_total(self@.latencies),
            r.p50_latency_ms == spec_percentile(ascending(self@.latencies), 50),
            r.p95_latency_ms == spec_percentile(ascending(self@.latencies), 95),
            r.p99_latency_ms == spec_percentile(ascending(self@.latencies), 99),
            r.spread_us == spec_spread_us(self@.start_times),
            report_counts_consistent(r.completed, r.total, r.successes, r.failures, r.latency_count),
            r.p50_latency_ms <= r.p95_latency_ms,
            r.p95_latency_ms <= r.p99_latency_ms,
    {
        proof {
            self.lemma_wf();
            lemma_report_percentiles(self@.latencies);
        }
        let sorted = sorted_latencies(&self.latencies);
        DoneReport {
            completed: self.completed,
            total: self.total,
            successes: self.successes,
            failures: self.failures,
            total_time_ms: elapsed_ms,
            latency_count: self.latencies.len(),
            latency_sum: self.latency_sum,
            p50_latency_ms: percentile(sorted.as_slice(), 50),
            p95_latency_ms: percentile(sorted.as_slice(), 95),
            p99_latency_ms: percentile(sorted.as_slice(), 99),
            spread_us: start_spread_us(&self.start_times),
        }
    }
}

/// Recording a start changes nothing but that request's start time, and
/// keeps the tally well formed.
pub proof fn lemma_start_keeps_counts(m: TallyModel, index: int, since_start_ns: u64)
    requires
        model_wf(m),
        0 <= index < m.total,
    ensures
        model_wf(after_start(m, index, since_start_ns)),
        after_start(m, index, since_start_ns).completed == m.completed,
        after_start(m, index, since_start_ns).successes == m.successes,
        after_start(m, index, since_start_ns).failures == m.failures,
        after_start(m, index, since_start_ns).latencies == m.latencies,
        after_start(m, index, since_start_ns).start_times[index] == since_start_ns,
        after_start(m, index, since_start_ns).start_times.len() == m.start_times.len(),
        forall|k: int|
            0 <= k < m.start_times.len() && k != index ==> #[trigger] after_start(
                m,
                index,
                since_start_ns,
            ).start_times[k] == m.start_times[k],
{
}

/// Every finished request is counted exactly once: one more completion,
/// and exactly one of successes and failures grows by one; nothing ever
/// decreases, and the tally stays well formed.
pub proof fn lemma_outcome_counts_once(m: TallyModel, status: Option<u16>, latency_ms: u128)
    requires
        model_wf(m),
        m.completed < m.total,
        latency_ms <= MAX_LATENCY_MS,
    ensures
        model_wf(after_outcome(m, status, latency_ms)),
        after_outcome(m, status, latency_ms).completed == m.completed + 1,
        after_outcome(m, status, latency_ms).total == m.total,
        after_outcome(m, status, latency_ms).start_times == m.start_times,
        (after_outcome(m, status, latency_ms).successes == m.successes + 1
            && after_outcome(m, status, latency_ms).failures == m.failures)
            || (after_outcome(m, status, latency_ms).successes == m.successes
            && after_outcome(m, status, latency_ms).failures == m.failures + 1),
        after_outcome(m, status, latency_ms).successes == m.successes + 1 <==> (status matches Some(s)
            && spec_is_success(s)),
{
    let n = after_outcome(m, status, latency_ms);
    assert forall|i: int| 0 <= i < n.latencies.len() implies #[trigger] n.latencies[i] <= MAX_LATENCY_MS by {
        if i < m.latencies.len() {
            assert(n.latencies[i] == m.latencies[i] || n.latencies == m.latencies);
        }
    }
}

/// Counters only move forward: over any two steps of a run, the later
/// counters are those of the earlier state or later ones.
pub proof fn lemma_counters_advance_transitive(a: TallyModel, b: TallyModel, c: TallyModel)
    requires
        counters_advance(a, b),
        counters_advance(b, c),
    ensures
        counters_advance(a, c),
{
}

/// Progress reports taken from two states of one run, the second reached
/// from the first by recorded events, never go backwards: completions,
/// successes and failures of the later report are at least those of the
/// earlier one, and both have the same total.
pub proof fn lemma_progress_never_decreases(
    a: TallyModel,
    b: TallyModel,
    ra: ProgressReport,
    rb: ProgressReport,
)
    requires
        counters_advance(a, b),
        ra.completed == a.completed && ra.total == a.total && ra.successes == a.successes
            && ra.failures == a.failures,
        rb.completed == b.completed && rb.total == b.total && rb.successes == b.successes
            && rb.failures == b.failures,
    ensures
        ra.total == rb.total,
        ra.completed <= rb.completed,
        ra.successes <= rb.successes,
        ra.failures <= rb.failures,
{
}

/// A status counts as a success exactly when it is 200 to 299: a request
/// answered with such a status adds one success and keeps its latency;
/// any other status, or no response, adds one failure and keeps no latency.
pub proof fn lemma_success_is_2xx(m: TallyModel, status: Option<u16>, latency_ms: u128)
    ensures
        (status matches Some(s) && 200 <= s <= 299) ==> after_outcome(m, status, latency_ms).successes
            == m.successes + 1 && after_outcome(m, status, latency_ms).failures == m.failures
            && after_outcome(m, status, latency_ms).latencies == m.latencies.push(latency_ms),
        !(status matches Some(s) && 200 <= s <= 299) ==> after_outcome(m, status, latency_ms).successes
            == m.successes && after_outcome(m, status, latency_ms).failures == m.failures + 1
            && after_outcome(m, status, latency_ms).latencies == m.latencies,
        forall|s: u16| spec_is_success(s) <==> (200 <= s && s <= 299),
{
}

/// The latency sum grows by exactly each latency added, however many were
/// recorded before.
pub proof fn lemma_latency_total_push(s: Seq<u128>, x: u128)
    ensures
        latency_total(s.push(x)) == latency_total(s) + x,
{
    assert(s.push(x).drop_last() =~= s);
}

/// The latency sum of two lists one after the other is the sum of their sums.
pub proof fn lemma_latency_total_concat(a: Seq<u128>, b: Seq<u128>)
    ensures
        latency_total(a + b) == latency_total(a) + latency_total(b),
    decreases b.len(),
{
    if b.len() == 0 {
        assert(a + b =~= a);
    } else {
        lemma_latency_total_concat(a, b.drop_last());
        assert((a + b).drop_last() =~= a + b.drop_last());
        assert((a + b).last() == b.last());
    }
}

/// The latency sum is the sum of every latency: nothing, of nothing; one
/// latency, of a single one; and a success with a 2xx status adds exactly
/// its latency to the sum a report gives.
pub proof fn lemma_success_adds_its_latency(m: TallyModel, s: u16, latency_ms: u128)
    requires
        200 <= s <= 299,
    ensures
        latency_total(Seq::<u128>::empty()) == 0,
        latency_total(seq![latency_ms]) == latency_ms,
        latency_total(after_outcome(m, Some(s), latency_ms).latencies) == latency_total(m.latencies)
            + latency_ms,
{
    lemma_latency_total_push(m.latencies, latency_ms);
    lemma_latency_total_push(Seq::<u128>::empty(), latency_ms);
    assert(Seq::<u128>::empty().push(latency_ms) =~= seq![latency_ms]);
}

/// When a run has finished, every one of its requests is either a success
/// or a failure, and there is one latency per success.
pub proof fn lemma_finished_run_accounts_for_all(m: TallyModel)
    requires
        model_wf(m),
        m.completed == m.total,
    ensures
        m.successes + m.failures == m.total,
        m.latencies.len() == m.successes,
{
}

/// The reported percentiles are ordered, p50 <= p95 <= p99; each is a
/// latency that a success reported, between the fastest and the slowest;
/// with no success they are all 0.
pub proof fn lemma_report_percentiles(latencies: Seq<u128>)
    ensures
        spec_percentile(ascending(latencies), 50) <= spec_percentile(ascending(latencies), 95),
        spec_percentile(ascending(latencies), 95) <= spec_percentile(ascending(latencies), 99),
        latencies.len() == 0 ==> spec_percentile(ascending(latencies), 50) == 0
            && spec_percentile(ascending(latencies), 95) == 0
            && spec_percentile(ascending(latencies), 99) == 0,
        latencies.len() > 0 ==> latencies.contains(spec_percentile(ascending(latencies), 50))
            && latencies.contains(spec_percentile(ascending(latencies), 95))
            && latencies.contains(spec_percentile(ascending(latencies), 99)),
        latencies.len() > 0 ==> forall|p: nat|
            ascending(latencies)[0] <= #[trigger] spec_percentile(ascending(latencies), p)
                <= ascending(latencies)[latencies.len() - 1],
        forall|i: int|
            0 <= i < latencies.len() ==> ascending(latencies)[0] <= #[trigger] latencies[i]
                <= ascending(latencies)[latencies.len() - 1],
{
    let a = ascending(latencies);
    lemma_ascending(latencies);
    lemma_percentile_monotone(a, 50, 95);
    lemma_percentile_monotone(a, 95, 99);
    if latencies.len() > 0 {
        lemma_percentile_is_sample(a, 50);
        lemma_percentile_is_sample(a, 95);
        lemma_percentile_is_sample(a, 99);
        lemma_sample_of_rearrangement(a, latencies, spec_percentile(a, 50));
        lemma_sample_of_rearrangement(a, latencies, spec_percentile(a, 95));
        lemma_sample_of_rearrangement(a, latencies, spec_percentile(a, 99));
    }
    if latencies.len() > 0 {
        assert forall|p: nat| a[0] <= #[trigger] spec_percentile(a, p) <= a[latencies.len() - 1] by {
            lemma_percentile_is_sample(a, p);
        }
    }
    assert forall|i: int| 0 <= i < latencies.len() implies a[0] <= #[trigger] latencies[i] <= a[latencies.len()
        - 1] by {
        assert(latencies.contains(latencies[i]));
        lemma_sample_of_rearrangement(latencies, a, latencies[i]);
        let j = choose|j: int| 0 <= j < a.len() && a[j] == latencies[i];
        assert(a[0] <= a[j]);
        assert(a[j] <= a[a.len() - 1]);
    }
}

/// An element of a sequence is an element of every rearrangement of it.
proof fn lemma_sample_of_rearrangement(s: Seq<u128>, t: Seq<u128>, x: u128)
    requires
        s.contains(x),
        s.to_multiset() == t.to_multiset(),
    ensures
        t.contains(x),
        exists|j: int| 0 <= j < t.len() && t[j] == x,
{
    vstd::seq_lib::to_multiset_contains(s, x);
    vstd::seq_lib::to_multiset_contains(t, x);
}

/// The reported spread is the distance between the earliest and the latest
/// start, in whole microseconds: every start lies between the two, and the
/// distance is at least `1000 * spread` and less than `1000 * (spread + 1)`
/// nanoseconds.
pub proof fn lemma_spread_bounds(starts: Seq<u64>)
    requires
        count_positive(starts) > 1,
    ensures
        forall|k: int| 0 <= k < starts.len() && starts[k] > 0 ==> min_positive(starts) <= #[trigger] starts[k]
            <= max_positive(starts),
        spec_spread_us(starts) * 1000 <= max_positive(starts) - min_positive(starts),
        max_positive(starts) - min_positive(starts) < spec_spread_us(starts) * 1000 + 1000,
{
    lemma_positive_extremes(starts);
}

/// The latency sum of a bounded list of bounded latencies is bounded.
pub proof fn lemma_latency_total_bound(s: Seq<u128>)
    requires
        forall|i: int| 0 <= i < s.len() ==> #[trigger] s[i] <= MAX_LATENCY_MS,
    ensures
        0 <= latency_total(s) <= s.len() * MAX_LATENCY_MS,
    decreases s.len(),
{
    if s.len() > 0 {
        let t = s.drop_last();
        assert forall|i: int| 0 <= i < t.len() implies #[trigger] t[i] <= MAX_LATENCY_MS by {
            assert(t[i] == s[i]);
        }
        lemma_latency_total_bound(t);
        assert(s[s.len() - 1] <= MAX_LATENCY_MS);
        assert((t.len() + 1) * MAX_LATENCY_MS == t.len() * MAX_LATENCY_MS + MAX_LATENCY_MS) by (nonlinear_arith);
    }
}

} // verus!
