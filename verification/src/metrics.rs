//! Aggregates over the job list for monitoring: counts by status, queue wait
//! and run times, histograms and averages. Durations are nanoseconds; the
//! dashboard's averages are whole milliseconds.

use vstd::prelude::*;
use crate::clock::{clamp_i64, sub_clamped, whole_ms, ns_to_ms};
use crate::text::{bytes_lt, utf8, str_equal, str_less, lemma_bytes_lt_irreflexive,
    lemma_bytes_lt_transitive, lemma_bytes_lt_total, lemma_utf8_injective};
use crate::types::{Job, JobStatus};

verus! {

/// How many jobs are in each status.
#[derive(Debug, Clone, Copy, PartialEq, Eq)]
pub struct StatusCounts {
    pub pending: usize,
    pub claimed: usize,
    pub done: usize,
    pub failed: usize,
    pub cancelled: usize,
}

pub open spec fn count_status(s: Seq<Job>, st: JobStatus) -> nat {
    s.filter(|j: Job| j.status == st).len()
}

pub open spec fn count_retried(s: Seq<Job>) -> nat {
    s.filter(|j: Job| j.retries > 0).len()
}

/// Law: the count of a status goes up by one exactly for each job in that
/// status (none for no jobs); the five counts add up to the number of jobs;
/// the retried count goes up by one exactly for each job that has been
/// attempted and failed at least once.
pub proof fn law_counts_count_each_job(s: Seq<Job>, x: Job, st: JobStatus)
    ensures
        count_status(Seq::empty(), st) == 0,
        count_status(s.push(x), st) == count_status(s, st) + if x.status == st { 1int } else { 0int },
        count_status(s, JobStatus::Pending) + count_status(s, JobStatus::Claimed) + count_status(s, JobStatus::Done)
            + count_status(s, JobStatus::Failed) + count_status(s, JobStatus::Cancelled) == s.len(),
        count_retried(Seq::empty()) == 0,
        count_retried(s.push(x)) == count_retried(s) + if x.retries > 0 { 1int } else { 0int },
    decreases s.len(),
{
    reveal_with_fuel(Seq::<_>::filter, 1);
    assert(s.push(x).drop_last() =~= s);
    assert(Seq::<Job>::empty().filter(|j: Job| j.status == st) =~= Seq::<Job>::empty());
    assert(Seq::<Job>::empty().filter(|j: Job| j.retries > 0) =~= Seq::<Job>::empty());
    if s.len() == 0 {
        assert(s.filter(|j: Job| j.status == JobStatus::Pending) =~= Seq::<Job>::empty());
        assert(s.filter(|j: Job| j.status == JobStatus::Claimed) =~= Seq::<Job>::empty());
        assert(s.filter(|j: Job| j.status == JobStatus::Done) =~= Seq::<Job>::empty());
        assert(s.filter(|j: Job| j.status == JobStatus::Failed) =~= Seq::<Job>::empty());
        assert(s.filter(|j: Job| j.status == JobStatus::Cancelled) =~= Seq::<Job>::empty());
    } else {
        law_counts_count_each_job(s.drop_last(), s.last(), st);
        assert(s.drop_last().push(s.last()) =~= s);
        law_counts_count_each_job(s.drop_last(), s.last(), JobStatus::Pending);
        law_counts_count_each_job(s.drop_last(), s.last(), JobStatus::Claimed);
        law_counts_count_each_job(s.drop_last(), s.last(), JobStatus::Done);
        law_counts_count_each_job(s.drop_last(), s.last(), JobStatus::Failed);
        law_counts_count_each_job(s.drop_last(), s.last(), JobStatus::Cancelled);
    }
}

/// Count the jobs in each status.
pub fn status_counts(jobs: &Vec<Job>) -> (r: StatusCounts)
    ensures
        r.pending == count_status(jobs@, JobStatus::Pending),
        r.claimed == count_status(jobs@, JobStatus::Claimed),
        r.done == count_status(jobs@, JobStatus::Done),
        r.failed == count_status(jobs@, JobStatus::Failed),
        r.cancelled == count_status(jobs@, JobStatus::Cancelled),
{
    let n = jobs.len();
    let mut r = StatusCounts { pending: 0, claimed: 0, done: 0, failed: 0, cancelled: 0 };
    let mut i: usize = 0;
    while i < n
        invariant
            n == jobs@.len(),
            i <= n,
            r.pending == count_status(jobs@.take(i as int), JobStatus::Pending),
            r.claimed == count_status(jobs@.take(i as int), JobStatus::Claimed),
            r.done == count_status(jobs@.take(i as int), JobStatus::Done),
            r.failed == count_status(jobs@.take(i as int), JobStatus::Failed),
            r.cancelled == count_status(jobs@.take(i as int), JobStatus::Cancelled),
            r.pending + r.claimed + r.done + r.failed + r.cancelled <= i,
        decreases n - i,
    {
        proof {
            reveal_with_fuel(Seq::<_>::filter, 1);
            assert(jobs@.take(i + 1).drop_last() =~= jobs@.take(i as int));
            assert(jobs@.take(i + 1).last() == jobs@[i as int]);
        }
        match jobs[i].status {
            JobStatus::Pending => r.pending = r.pending + 1,
            JobStatus::Claimed => r.claimed = r.claimed + 1,
            JobStatus::Done => r.done = r.done + 1,
            JobStatus::Failed => r.failed = r.failed + 1,
            JobStatus::Cancelled => r.cancelled = r.cancelled + 1,
        }
        i = i + 1;
    }
    assert(jobs@.take(n as int) =~= jobs@);
    r
}

/// How many jobs have been retried at least once.
pub fn retried_count(jobs: &Vec<Job>) -> (r: usize)
    ensures
        r == count_retried(jobs@),
{
    let n = jobs.len();
    let mut c: usize = 0;
    let mut i: usize = 0;
    while i < n
        invariant
            n == jobs@.len(),
            i <= n,
            c <= i,
            c == count_retried(jobs@.take(i as int)),
        decreases n - i,
    {
        proof {
            reveal_with_fuel(Seq::<_>::filter, 1);
            assert(jobs@.take(i + 1).drop_last() =~= jobs@.take(i as int));
            assert(jobs@.take(i + 1).last() == jobs@[i as int]);
        }
        if jobs[i].retries > 0 {
            c = c + 1;
        }
        i = i + 1;
    }
    assert(jobs@.take(n as int) =~= jobs@);
    c
}

/// For each started job, in order: how long it waited between enqueue and claim.
pub open spec fn queue_waits_of(s: Seq<Job>) -> Seq<i64>
    decreases s.len(),
{
    if s.len() == 0 {
        Seq::empty()
    } else {
        let rest = queue_waits_of(s.drop_last());
        match s.last().started_at {
            Some(st) => rest.push(clamp_i64(st - s.last().enqueued_at)),
            None => rest,
        }
    }
}

/// For each job that started and finished, in order: how long it ran.
pub open spec fn run_times_of(s: Seq<Job>) -> Seq<i64>
    decreases s.len(),
{
    if s.len() == 0 {
        Seq::empty()
    } else {
        let rest = run_times_of(s.drop_last());
        match (s.last().finished_at, s.last().started_at) {
            (Some(f), Some(st)) => rest.push(clamp_i64(f - st)),
            _ => rest,
        }
    }
}

/// Law: the run times are one entry per job that has both a start and a
/// finish time, whatever its status, in store order: its finish time minus
/// its start time.
pub proof fn law_run_times_cover_every_run(s: Seq<Job>)
    ensures
        run_times_of(s).len() == s.filter(|j: Job| j.started_at is Some && j.finished_at is Some).len(),
        forall|i: int| 0 <= i < run_times_of(s).len() ==> #[trigger] run_times_of(s)[i] == clamp_i64(
            s.filter(|j: Job| j.started_at is Some && j.finished_at is Some)[i].finished_at->0
                - s.filter(|j: Job| j.started_at is Some && j.finished_at is Some)[i].started_at->0),
    decreases s.len(),
{
    reveal_with_fuel(Seq::<_>::filter, 1);
    if s.len() > 0 {
        law_run_times_cover_every_run(s.drop_last());
    }
}

/// Law: the queue waits are one entry per job that has a start time,
/// whatever its status, in store order: its start time minus its enqueue
/// time.
pub proof fn law_queue_waits_cover_every_start(s: Seq<Job>)
    ensures
        queue_waits_of(s).len() == s.filter(|j: Job| j.started_at is Some).len(),
        forall|i: int| 0 <= i < queue_waits_of(s).len() ==> #[trigger] queue_waits_of(s)[i] == clamp_i64(
            s.filter(|j: Job| j.started_at is Some)[i].started_at->0
                - s.filter(|j: Job| j.started_at is Some)[i].enqueued_at),
    decreases s.len(),
{
    reveal_with_fuel(Seq::<_>::filter, 1);
    if s.len() > 0 {
        law_queue_waits_cover_every_start(s.drop_last());
    }
}

/// Queue wait of each job that has been claimed, in order.
pub fn queue_waits(jobs: &Vec<Job>) -> (r: Vec<i64>)
    ensures
        r@ == queue_waits_of(jobs@),
{
    let n = jobs.len();
    let mut out: Vec<i64> = Vec::new();
    let mut i: usize = 0;
    while i < n
        invariant
            n == jobs@.len(),
            i <= n,
            out@ == queue_waits_of(jobs@.take(i as int)),
        decreases n - i,
    {
        assert(jobs@.take(i + 1).drop_last() =~= jobs@.take(i as int));
        assert(jobs@.take(i + 1).last() == jobs@[i as int]);
        if let Some(st) = jobs[i].started_at {
            out.push(sub_clamped(st, jobs[i].enqueued_at));
        }
        i = i + 1;
    }
    assert(jobs@.take(n as int) =~= jobs@);
    out
}

/// Run time of each job that has started and finished, in order.
pub fn run_times(jobs: &Vec<Job>) -> (r: Vec<i64>)
    ensures
        r@ == run_times_of(jobs@),
{
    let n = jobs.len();
    let mut out: Vec<i64> = Vec::new();
    let mut i: usize = 0;
    while i < n
        invariant
            n == jobs@.len(),
            i <= n,
            out@ == run_times_of(jobs@.take(i as int)),
        decreases n - i,
    {
        assert(jobs@.take(i + 1).drop_last() =~= jobs@.take(i as int));
        assert(jobs@.take(i + 1).last() == jobs@[i as int]);
        match (jobs[i].finished_at, jobs[i].started_at) {
            (Some(f), Some(st)) => out.push(sub_clamped(f, st)),
            _ => {},
        }
        i = i + 1;
    }
    assert(jobs@.take(n as int) =~= jobs@);
    out
}

/// Negative durations counted as zero.
pub open spec fn at_least_zero(v: i64) -> i64 {
    if v < 0 { 0 } else { v }
}

/// Each duration, with negative ones counted as zero.
pub fn clamp_to_zero(values: &Vec<i64>) -> (r: Vec<i64>)
    ensures
        r@ == values@.map_values(|v: i64| at_least_zero(v)),
{
    let n = values.len();
    let mut out: Vec<i64> = Vec::new();
    let mut i: usize = 0;
    while i < n
        invariant
            n == values@.len(),
            i <= n,
            out@ == values@.take(i as int).map_values(|v: i64| at_least_zero(v)),
        decreases n - i,
    {
        assert(values@.take(i + 1).map_values(|v: i64| at_least_zero(v))
            =~= values@.take(i as int).map_values(|v: i64| at_least_zero(v)).push(at_least_zero(values@[i as int])));
        let v = values[i];
        out.push(if v < 0 { 0 } else { v });
        i = i + 1;
    }
    assert(values@.take(n as int) =~= values@);
    out
}

pub open spec fn sum_of(v: Seq<i64>) -> int
    decreases v.len(),
{
    if v.len() == 0 {
        0
    } else {
        sum_of(v.drop_last()) + v.last()
    }
}

pub open spec fn count_at_most(v: Seq<i64>, bound: i64) -> nat {
    v.filter(|x: i64| x <= bound).len()
}

/// The upper bounds of the histogram buckets, in nanoseconds (5 ms to 300 s).
pub open spec fn bucket_bounds() -> Seq<i64> {
    seq![
        5_000_000, 10_000_000, 25_000_000, 50_000_000, 100_000_000, 250_000_000, 500_000_000,
        1_000_000_000, 2_500_000_000, 5_000_000_000, 10_000_000_000, 30_000_000_000,
        60_000_000_000, 120_000_000_000, 300_000_000_000,
    ]
}

/// A cumulative histogram: for each bound, how many values are at most it;
/// with the number of values and their sum.
pub struct Histogram {
    pub buckets: Vec<(i64, usize)>,
    pub count: usize,
    pub sum: i128,
}

fn bounds() -> (r: Vec<i64>)
    ensures
        r@ == bucket_bounds(),
{
    let r = vec![
        5_000_000, 10_000_000, 25_000_000, 50_000_000, 100_000_000, 250_000_000, 500_000_000,
        1_000_000_000, 2_500_000_000, 5_000_000_000, 10_000_000_000, 30_000_000_000,
        60_000_000_000, 120_000_000_000, 300_000_000_000,
    ];
    assert(r@ =~= bucket_bounds());
    r
}

fn count_le(values: &Vec<i64>, bound: i64) -> (r: usize)
    ensures
        r == count_at_most(values@, bound),
{
    let n = values.len();
    let mut c: usize = 0;
    let mut i: usize = 0;
    while i < n
        invariant
            n == values@.len(),
            i <= n,
            c <= i,
            c == count_at_most(values@.take(i as int), bound),
        decreases n - i,
    {
        proof {
            reveal_with_fuel(Seq::<_>::filter, 1);
            assert(values@.take(i + 1).drop_last() =~= values@.take(i as int));
            assert(values@.take(i + 1).last() == values@[i as int]);
        }
        if values[i] <= bound {
            c = c + 1;
        }
        i = i + 1;
    }
    assert(values@.take(n as int) =~= values@);
    c
}

/// The sum of the values, exactly.
pub fn sum_values(values: &Vec<i64>) -> (r: i128)
    ensures
        r == sum_of(values@),
{
    let n = values.len();
    let mut s: i128 = 0;
    let mut i: usize = 0;
    while i < n
        invariant
            n == values@.len(),
            i <= n,
            s == sum_of(values@.take(i as int)),
            -(i as int) * 0x8000_0000_0000_0000 <= s <= (i as int) * 0x8000_0000_0000_0000,
        decreases n - i,
    {
        assert(values@.take(i + 1).drop_last() =~= values@.take(i as int));
        assert(values@.take(i + 1).last() == values@[i as int]);
        s = s + values[i] as i128;
        i = i + 1;
    }
    assert(values@.take(n as int) =~= values@);
    s
}

/// The histogram of the values over the fixed bucket bounds.
pub fn histogram(values: &Vec<i64>) -> (r: Histogram)
    ensures
        r.buckets@.len() == bucket_bounds().len(),
        forall|k: int| 0 <= k < r.buckets@.len() ==> (#[trigger] r.buckets@[k]).0 == bucket_bounds()[k]
            && r.buckets@[k].1 == count_at_most(values@, bucket_bounds()[k]),
        r.count == values@.len(),
        r.sum == sum_of(values@),
{
    let bs = bounds();
    let mut buckets: Vec<(i64, usize)> = Vec::new();
    let mut k: usize = 0;
    while k < bs.len()
        invariant
            bs@ == bucket_bounds(),
            k <= bs@.len(),
            buckets@.len() == k,
            forall|m: int| 0 <= m < k ==> (#[trigger] buckets@[m]).0 == bucket_bounds()[m]
                && buckets@[m].1 == count_at_most(values@, bucket_bounds()[m]),
        decreases bs@.len() - k,
    {
        let b = bs[k];
        buckets.push((b, count_le(values, b)));
        k = k + 1;
    }
    Histogram { buckets, count: values.len(), sum: sum_values(values) }
}

/// Law: each histogram bucket counts the values at most its bound, one more
/// for each such value and none for no values; the sum adds each value once.
pub proof fn law_histogram_counts_each_value(v: Seq<i64>, x: i64, bound: i64)
    ensures
        count_at_most(Seq::empty(), bound) == 0,
        count_at_most(v.push(x), bound) == count_at_most(v, bound) + if x <= bound { 1int } else { 0int },
        sum_of(Seq::empty()) == 0,
        sum_of(v.push(x)) == sum_of(v) + x,
        forall|a: int, b: int| 0 <= a < b < bucket_bounds().len() ==> bucket_bounds()[a] < bucket_bounds()[b],
        bucket_bounds()[0] == 5_000_000,
        bucket_bounds().last() == 300_000_000_000,
{
    reveal_with_fuel(Seq::<_>::filter, 1);
    assert(v.push(x).drop_last() =~= v);
    assert(Seq::<i64>::empty().filter(|y: i64| y <= bound) =~= Seq::<i64>::empty());
}

/// The average rounded toward zero, or 0 when there is no value.
pub open spec fn average_of(v: Seq<i64>) -> int {
    if v.len() == 0 {
        0
    } else if sum_of(v) >= 0 {
        sum_of(v) / (v.len() as int)
    } else {
        -((-sum_of(v)) / (v.len() as int))
    }
}

proof fn lemma_sum_bounds(v: Seq<i64>)
    ensures
        -(v.len() as int) * 0x8000_0000_0000_0000 <= sum_of(v) <= (v.len() as int) * 0x7fff_ffff_ffff_ffff,
    decreases v.len(),
{
    if v.len() > 0 {
        lemma_sum_bounds(v.drop_last());
    }
}

/// Law: the average is the sum divided by the number of values, rounded
/// toward zero: the truncated average times the count is at most the sum in
/// size and within one count of it, with the sum's sign.
pub proof fn law_average_rounds_toward_zero(v: Seq<i64>)
    requires
        v.len() > 0,
    ensures
        sum_of(v) >= 0 ==> 0 <= average_of(v) * v.len() <= sum_of(v) < (average_of(v) + 1) * v.len(),
        sum_of(v) < 0 ==> (average_of(v) - 1) * v.len() < sum_of(v) <= average_of(v) * v.len() <= 0,
{
    let n = v.len() as int;
    let t = sum_of(v);
    if t >= 0 {
        let q = t / n;
        assert(0 <= q * n <= t < (q + 1) * n) by (nonlinear_arith)
            requires n > 0, t >= 0, q == t / n;
    } else {
        let q = (-t) / n;
        assert(0 <= q * n <= -t < (q + 1) * n) by (nonlinear_arith)
            requires n > 0, -t > 0, q == (-t) / n;
        assert((-q) * n == -(q * n)) by (nonlinear_arith);
        assert((-q - 1) * n == -((q + 1) * n)) by (nonlinear_arith);
    }
}

/// The average of the values rounded toward zero, or 0 for no values.
pub fn average(values: &Vec<i64>) -> (r: i64)
    ensures
        r == average_of(values@),
{
    let n = values.len();
    if n == 0 {
        return 0;
    }
    let s = sum_values(values);
    proof { lemma_sum_bounds(values@); }
    let d = n as u128;
    if s >= 0 {
        let q = (s as u128) / d;
        proof {
            let ni = n as int;
            assert(s as int <= ni * 0x7fff_ffff_ffff_ffff);
            assert((s as int) / ni <= 0x7fff_ffff_ffff_ffff) by (nonlinear_arith)
                requires
                    s as int <= ni * 0x7fff_ffff_ffff_ffff,
                    ni > 0,
                    s >= 0;
        }
        q as i64
    } else {
        let q = ((0 - s) as u128) / d;
        proof {
            let ni = n as int;
            let a = -(s as int);
            assert(a <= ni * 0x8000_0000_0000_0000);
            assert(a / ni <= 0x8000_0000_0000_0000) by (nonlinear_arith)
                requires
                    a <= ni * 0x8000_0000_0000_0000,
                    ni > 0,
                    a > 0;
        }
        (0 - (q as i128)) as i64
    }
}

/// The totals that the dashboard shows.
pub struct DashboardSummary {
    pub total: usize,
    pub counts: StatusCounts,
    pub avg_queue_wait_ms: i64,
    pub avg_exec_ms: i64,
}

/// Totals for the dashboard: the job count, counts by status, the average
/// queue wait of claimed jobs and the average run time of finished ones, in
/// whole milliseconds rounded toward zero.
pub fn dashboard_summary(jobs: &Vec<Job>) -> (r: DashboardSummary)
    ensures
        r.total == jobs@.len(),
        r.counts.pending == count_status(jobs@, JobStatus::Pending),
        r.counts.claimed == count_status(jobs@, JobStatus::Claimed),
        r.counts.done == count_status(jobs@, JobStatus::Done),
        r.counts.failed == count_status(jobs@, JobStatus::Failed),
        r.counts.cancelled == count_status(jobs@, JobStatus::Cancelled),
        r.avg_queue_wait_ms == whole_ms(average_of(queue_waits_of(jobs@))),
        r.avg_exec_ms == whole_ms(average_of(run_times_of(jobs@))),
{
    let waits = queue_waits(jobs);
    let runs = run_times(jobs);
    DashboardSummary {
        total: jobs.len(),
        counts: status_counts(jobs),
        avg_queue_wait_ms: ns_to_ms(average(&waits)),
        avg_exec_ms: ns_to_ms(average(&runs)),
    }
}

/// Jobs attributed to one worker, by status.
#[derive(Debug)]
pub struct WorkerCounts {
    pub worker_id: String,
    pub claimed: usize,
    pub done: usize,
    pub failed: usize,
}

/// The job ran on worker `w` and is in status `st`.
pub open spec fn attributed(j: Job, w: Seq<char>, st: JobStatus) -> bool {
    (j.worker_id matches Some(x) && x@ == w) && j.status == st
}

pub open spec fn worker_count(s: Seq<Job>, w: Seq<char>, st: JobStatus) -> nat {
    s.filter(|j: Job| attributed(j, w, st)).len()
}

/// The per-worker counts include claimed, done and failed jobs that name a worker.
pub open spec fn counted_for_worker(j: Job) -> bool {
    j.worker_id is Some && (j.status == JobStatus::Claimed || j.status == JobStatus::Done
        || j.status == JobStatus::Failed)
}

pub open spec fn is_active_worker(s: Seq<Job>, w: Seq<char>) -> bool {
    exists|i: int| 0 <= i < s.len() && #[trigger] counted_for_worker(s[i]) && s[i].worker_id->0@ == w
}

/// The entry holds the counts of its worker, who has a counted job.
pub open spec fn entry_correct(e: WorkerCounts, s: Seq<Job>) -> bool {
    &&& is_active_worker(s, e.worker_id@)
    &&& e.claimed == worker_count(s, e.worker_id@, JobStatus::Claimed)
    &&& e.done == worker_count(s, e.worker_id@, JobStatus::Done)
    &&& e.failed == worker_count(s, e.worker_id@, JobStatus::Failed)
}

/// Law: a worker's count for a status goes up by one exactly for each job
/// that names that worker and is in that status; a worker gets an entry
/// exactly when some job names it and is claimed, done or failed.
pub proof fn law_worker_counts_count_each_job(s: Seq<Job>, x: Job, w: Seq<char>, st: JobStatus)
    ensures
        worker_count(s.push(x), w, st) == worker_count(s, w, st)
            + if x.worker_id is Some && x.worker_id->0@ == w && x.status == st { 1int } else { 0int },
        worker_count(Seq::empty(), w, st) == 0,
        !is_active_worker(Seq::empty(), w),
        is_active_worker(s.push(x), w) == (is_active_worker(s, w) || (x.worker_id is Some && x.worker_id->0@ == w
            && (x.status == JobStatus::Claimed || x.status == JobStatus::Done || x.status == JobStatus::Failed))),
{
    lemma_worker_count_push(s, x, w, st);
    lemma_active_push(s, x, w);
    reveal_with_fuel(Seq::<_>::filter, 1);
    assert(Seq::<Job>::empty().filter(|j: Job| attributed(j, w, st)) =~= Seq::<Job>::empty());
}

/// Entries ordered strictly by the bytes of the worker id.
pub open spec fn sorted_by_worker(v: Seq<WorkerCounts>) -> bool {
    forall|a: int, b: int| 0 <= a < b < v.len() ==> bytes_lt(
        utf8(#[trigger] v[a].worker_id@),
        utf8(#[trigger] v[b].worker_id@),
    )
}

proof fn lemma_worker_count_push(s: Seq<Job>, x: Job, w: Seq<char>, st: JobStatus)
    ensures
        worker_count(s.push(x), w, st) == worker_count(s, w, st) + if attributed(x, w, st) { 1nat } else { 0nat },
{
    reveal_with_fuel(Seq::<_>::filter, 1);
    assert(s.push(x).drop_last() =~= s);
}

proof fn lemma_worker_count_le(s: Seq<Job>, w: Seq<char>, st: JobStatus)
    ensures
        worker_count(s, w, st) <= s.len(),
    decreases s.len(),
{
    if s.len() > 0 {
        lemma_worker_count_le(s.drop_last(), w, st);
        lemma_worker_count_push(s.drop_last(), s.last(), w, st);
        assert(s.drop_last().push(s.last()) =~= s);
    }
}

proof fn lemma_worker_count_zero(s: Seq<Job>, w: Seq<char>, st: JobStatus)
    requires
        !is_active_worker(s, w),
        st == JobStatus::Claimed || st == JobStatus::Done || st == JobStatus::Failed,
    ensures
        worker_count(s, w, st) == 0,
    decreases s.len(),
{
    if s.len() > 0 {
        let p = s.drop_last();
        assert(!is_active_worker(p, w)) by {
            if is_active_worker(p, w) {
                let i = choose|i: int| 0 <= i < p.len() && #[trigger] counted_for_worker(p[i]) && p[i].worker_id->0@ == w;
                assert(s[i] == p[i]);
            }
        }
        lemma_worker_count_zero(p, w, st);
        lemma_worker_count_push(p, s.last(), w, st);
        assert(p.push(s.last()) =~= s);
        if attributed(s.last(), w, st) {
            assert(counted_for_worker(s[s.len() - 1]));
        }
    }
}

proof fn lemma_sorted_distinct(v: Seq<WorkerCounts>, a: int, b: int)
    requires
        sorted_by_worker(v),
        0 <= a < v.len(),
        0 <= b < v.len(),
        a != b,
    ensures
        v[a].worker_id@ != v[b].worker_id@,
{
    if a < b {
        assert(bytes_lt(utf8(v[a].worker_id@), utf8(v[b].worker_id@)));
        if v[a].worker_id@ == v[b].worker_id@ {
            lemma_bytes_lt_irreflexive(utf8(v[a].worker_id@));
        }
    } else {
        assert(bytes_lt(utf8(v[b].worker_id@), utf8(v[a].worker_id@)));
        if v[a].worker_id@ == v[b].worker_id@ {
            lemma_bytes_lt_irreflexive(utf8(v[a].worker_id@));
        }
    }
}

proof fn lemma_active_push(s: Seq<Job>, x: Job, w: Seq<char>)
    ensures
        is_active_worker(s.push(x), w) == (is_active_worker(s, w) || (counted_for_worker(x) && x.worker_id->0@ == w)),
{
    let t = s.push(x);
    if is_active_worker(s, w) {
        let i = choose|i: int| 0 <= i < s.len() && #[trigger] counted_for_worker(s[i]) && s[i].worker_id->0@ == w;
        assert(t[i] == s[i]);
    }
    if counted_for_worker(x) && x.worker_id->0@ == w {
        assert(counted_for_worker(t[s.len() as int]));
    }
    if is_active_worker(t, w) {
        let i = choose|i: int| 0 <= i < t.len() && #[trigger] counted_for_worker(t[i]) && t[i].worker_id->0@ == w;
        if i < s.len() {
            assert(counted_for_worker(s[i]));
        }
    }
}

/// An entry for another worker is unaffected by the new job.
proof fn lemma_entry_unaffected(s: Seq<Job>, x: Job, e: WorkerCounts)
    requires
        entry_correct(e, s),
        !(counted_for_worker(x) && x.worker_id->0@ == e.worker_id@),
    ensures
        entry_correct(e, s.push(x)),
{
    lemma_active_push(s, x, e.worker_id@);
    lemma_worker_count_push(s, x, e.worker_id@, JobStatus::Claimed);
    lemma_worker_count_push(s, x, e.worker_id@, JobStatus::Done);
    lemma_worker_count_push(s, x, e.worker_id@, JobStatus::Failed);
}

/// The entry of the new job's worker gains that job.
proof fn lemma_entry_gains(s: Seq<Job>, x: Job, e: WorkerCounts, f: WorkerCounts)
    requires
        counted_for_worker(x),
        e.worker_id@ == x.worker_id->0@,
        f.worker_id@ == e.worker_id@,
        is_active_worker(s, e.worker_id@) ==> entry_correct(e, s),
        !is_active_worker(s, e.worker_id@) ==> e.claimed == 0 && e.done == 0 && e.failed == 0,
        f.claimed == e.claimed + if x.status == JobStatus::Claimed { 1int } else { 0int },
        f.done == e.done + if x.status == JobStatus::Done { 1int } else { 0int },
        f.failed == e.failed + if x.status == JobStatus::Failed { 1int } else { 0int },
    ensures
        entry_correct(f, s.push(x)),
{
    let w = e.worker_id@;
    lemma_active_push(s, x, w);
    lemma_worker_count_push(s, x, w, JobStatus::Claimed);
    lemma_worker_count_push(s, x, w, JobStatus::Done);
    lemma_worker_count_push(s, x, w, JobStatus::Failed);
    if !is_active_worker(s, w) {
        lemma_worker_count_zero(s, w, JobStatus::Claimed);
        lemma_worker_count_zero(s, w, JobStatus::Done);
        lemma_worker_count_zero(s, w, JobStatus::Failed);
    }
}

/// Position `k` where `w` belongs in the sorted entries: every entry before
/// it orders before `w`, and the entry at it (if any) does not.
fn find_worker(v: &Vec<WorkerCounts>, w: &str) -> (k: usize)
    requires
        sorted_by_worker(v@),
    ensures
        k <= v@.len(),
        forall|a: int| 0 <= a < k ==> bytes_lt(utf8(#[trigger] v@[a].worker_id@), utf8(w@)),
        k < v@.len() ==> !bytes_lt(utf8(v@[k as int].worker_id@), utf8(w@)),
{
    let mut k: usize = 0;
    let mut searching = true;
    while searching
        invariant
            k <= v@.len(),
            forall|a: int| 0 <= a < k ==> bytes_lt(utf8(#[trigger] v@[a].worker_id@), utf8(w@)),
            !searching ==> (k < v@.len() ==> !bytes_lt(utf8(v@[k as int].worker_id@), utf8(w@))),
        decreases v@.len() - k + if searching { 1int } else { 0int },
    {
        if k < v.len() && str_less(v[k].worker_id.as_str(), w) {
            k = k + 1;
        } else {
            searching = false;
        }
    }
    k
}

/// Per-worker counts of claimed, done and failed jobs, one entry for each
/// worker that has such a job, ordered by worker id.
pub fn worker_counts(jobs: &Vec<Job>) -> (r: Vec<WorkerCounts>)
    ensures
        sorted_by_worker(r@),
        forall|a: int| 0 <= a < r@.len() ==> entry_correct(#[trigger] r@[a], jobs@),
        forall|w: Seq<char>| #[trigger] is_active_worker(jobs@, w) ==> exists|a: int| 0 <= a < r@.len() && r@[a].worker_id@ == w,
{
    let n = jobs.len();
    let mut out: Vec<WorkerCounts> = Vec::new();
    let mut i: usize = 0;
    while i < n
        invariant
            n == jobs@.len(),
            i <= n,
            sorted_by_worker(out@),
            forall|a: int| 0 <= a < out@.len() ==> entry_correct(#[trigger] out@[a], jobs@.take(i as int)),
            forall|w: Seq<char>| #[trigger] is_active_worker(jobs@.take(i as int), w) ==> exists|a: int| 0 <= a < out@.len() && out@[a].worker_id@ == w,
        decreases n - i,
    {
        let ghost pre = jobs@.take(i as int);
        let ghost post = jobs@.take(i + 1);
        let ghost x = jobs@[i as int];
        let ghost before = out@;
        assert(post =~= pre.push(x));
        let j = &jobs[i];
        let counted = j.status == JobStatus::Claimed || j.status == JobStatus::Done || j.status == JobStatus::Failed;
        match (&j.worker_id, counted) {
            (Some(w), true) => {
                let k = find_worker(&out, w.as_str());
                let found = k < out.len() && str_equal(out[k].worker_id.as_str(), w.as_str());
                let st = j.status;
                proof {
                    if found {
                        lemma_worker_count_le(pre, w@, JobStatus::Claimed);
                        lemma_worker_count_le(pre, w@, JobStatus::Done);
                        lemma_worker_count_le(pre, w@, JobStatus::Failed);
                        assert(entry_correct(out@[k as int], pre));
                    }
                }
                if found {
                    let e = WorkerCounts {
                        worker_id: w.clone(),
                        claimed: if st == JobStatus::Claimed { out[k].claimed + 1 } else { out[k].claimed },
                        done: if st == JobStatus::Done { out[k].done + 1 } else { out[k].done },
                        failed: if st == JobStatus::Failed { out[k].failed + 1 } else { out[k].failed },
                    };
                    proof { lemma_entry_gains(pre, x, before[k as int], e); }
                    out.set(k, e);
                    proof {
                        assert forall|a: int, b: int| 0 <= a < b < out@.len() implies bytes_lt(
                            utf8(#[trigger] out@[a].worker_id@), utf8(#[trigger] out@[b].worker_id@)) by {
                            assert(bytes_lt(utf8(before[a].worker_id@), utf8(before[b].worker_id@)));
                        }
                        assert forall|a: int| 0 <= a < out@.len() implies entry_correct(#[trigger] out@[a], post) by {
                            if a != k {
                                lemma_sorted_distinct(before, a, k as int);
                                lemma_entry_unaffected(pre, x, before[a]);
                            }
                        }
                        assert forall|v: Seq<char>| #[trigger] is_active_worker(post, v) implies exists|a: int| 0 <= a < out@.len() && out@[a].worker_id@ == v by {
                            lemma_active_push(pre, x, v);
                            if v == w@ {
                                assert(out@[k as int].worker_id@ == v);
                            } else {
                                assert(is_active_worker(pre, v));
                                let a = choose|a: int| 0 <= a < before.len() && before[a].worker_id@ == v;
                                assert(out@[a].worker_id@ == v);
                            }
                        }
                    }
                } else {
                    let e = WorkerCounts {
                        worker_id: w.clone(),
                        claimed: if st == JobStatus::Claimed { 1 } else { 0 },
                        done: if st == JobStatus::Done { 1 } else { 0 },
                        failed: if st == JobStatus::Failed { 1 } else { 0 },
                    };
                    proof {
                        let wb = utf8(w@);
                        assert forall|a: int| 0 <= a < before.len() implies #[trigger] before[a].worker_id@ != w@ by {
                            if a < k {
                                assert(bytes_lt(utf8(before[a].worker_id@), wb));
                                lemma_bytes_lt_irreflexive(wb);
                            } else {
                                let ek = utf8(before[k as int].worker_id@);
                                if before[k as int].worker_id@ == w@ {
                                } else {
                                    if ek == wb {
                                        lemma_utf8_injective(before[k as int].worker_id@, w@);
                                    }
                                    lemma_bytes_lt_total(ek, wb);
                                    if a > k {
                                        assert(bytes_lt(ek, utf8(before[a].worker_id@)));
                                        lemma_bytes_lt_transitive(wb, ek, utf8(before[a].worker_id@));
                                        if before[a].worker_id@ == w@ {
                                            lemma_bytes_lt_irreflexive(wb);
                                        }
                                    }
                                }
                            }
                        }
                        assert(!is_active_worker(pre, w@));
                        lemma_entry_gains(pre, x, WorkerCounts { worker_id: *w, claimed: 0, done: 0, failed: 0 }, e);
                    }
                    out.insert(k, e);
                    proof {
                        let wb = utf8(w@);
                        assert forall|a: int| 0 <= a < before.len() && k <= a implies bytes_lt(wb, #[trigger] utf8(before[a].worker_id@)) by {
                            let ek = utf8(before[k as int].worker_id@);
                            assert(before[k as int].worker_id@ != w@);
                            if ek == wb {
                                lemma_utf8_injective(before[k as int].worker_id@, w@);
                            }
                            lemma_bytes_lt_total(ek, wb);
                            if a > k {
                                assert(bytes_lt(ek, utf8(before[a].worker_id@)));
                                lemma_bytes_lt_transitive(wb, ek, utf8(before[a].worker_id@));
                            }
                        }
                        assert forall|a: int, b: int| 0 <= a < b < out@.len() implies bytes_lt(
                            utf8(#[trigger] out@[a].worker_id@), utf8(#[trigger] out@[b].worker_id@)) by {
                            if b < k {
                                assert(bytes_lt(utf8(before[a].worker_id@), utf8(before[b].worker_id@)));
                            } else if b == k {
                                assert(bytes_lt(utf8(before[a].worker_id@), wb));
                            } else if a < k {
                                assert(bytes_lt(utf8(before[a].worker_id@), utf8(before[b - 1].worker_id@)));
                            } else if a == k {
                                assert(bytes_lt(wb, utf8(before[b - 1].worker_id@)));
                            } else {
                                assert(bytes_lt(utf8(before[a - 1].worker_id@), utf8(before[b - 1].worker_id@)));
                            }
                        }
                        assert forall|a: int| 0 <= a < out@.len() implies entry_correct(#[trigger] out@[a], post) by {
                            if a < k {
                                lemma_entry_unaffected(pre, x, before[a]);
                            } else if a > k {
                                lemma_entry_unaffected(pre, x, before[a - 1]);
                            }
                        }
                        assert forall|v: Seq<char>| #[trigger] is_active_worker(post, v) implies exists|a: int| 0 <= a < out@.len() && out@[a].worker_id@ == v by {
                            lemma_active_push(pre, x, v);
                            if v == w@ {
                                assert(out@[k as int].worker_id@ == v);
                            } else {
                                assert(is_active_worker(pre, v));
                                let a = choose|a: int| 0 <= a < before.len() && before[a].worker_id@ == v;
                                if a < k {
                                    assert(out@[a].worker_id@ == v);
                                } else {
                                    assert(out@[a + 1].worker_id@ == v);
                                }
                            }
                        }
                    }
                }
            },
            _ => {
                proof {
                    assert forall|a: int| 0 <= a < out@.len() implies entry_correct(#[trigger] out@[a], post) by {
                        lemma_entry_unaffected(pre, x, before[a]);
                    }
                    assert forall|v: Seq<char>| #[trigger] is_active_worker(post, v) implies exists|a: int| 0 <= a < out@.len() && out@[a].worker_id@ == v by {
                        lemma_active_push(pre, x, v);
                    }
                }
            },
        }
        i = i + 1;
    }
    assert(jobs@.take(n as int) =~= jobs@);
    out
}

} // verus!
