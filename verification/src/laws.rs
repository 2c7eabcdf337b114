//! Properties that span several operations: what every operation keeps, and
//! why replaying the event log rebuilds the store exactly.

use vstd::prelude::*;
use crate::event::{EventOp, StorageEvent};
use crate::clock::clamp_i64;
use crate::persist::{holder_check, ids_where, lemma_select_all, purgeable};
use crate::replay::{apply_spec, replay_spec, restore_all};
use crate::space::{completed_job, failed_job, cancelled_job, retried_job, extended_job};
use crate::space::{ids_distinct, cancel_check, retry_allowed, is_next_claim, has_job, index_of, job_of, lemma_index_of, put_job, remove_job,
    set_job, lease_check, complete_spec, fail_spec, cancel_spec, retry_spec, extend_spec,
    expire_spec, expire_one, expirable, expired_job, count_expirable, apply_claim_spec,
    apply_expire_spec, claimed_job, select, lemma_update_keeps_ids, lemma_push_keeps_ids,
    lemma_remove_keeps_ids};
use crate::types::{Job, JobId, JobStatus, LeaseId, new_job};
use crate::error::SpaceError;

verus! {

/// A job carries a lease (an id and an end time) exactly while it is claimed.
pub open spec fn job_lease_consistent(j: Job) -> bool {
    &&& (j.status == JobStatus::Claimed) == (j.lease_id is Some)
    &&& (j.status == JobStatus::Claimed) == (j.lease_until is Some)
}

pub open spec fn lease_consistent(s: Seq<Job>) -> bool {
    forall|i: int| 0 <= i < s.len() ==> #[trigger] job_lease_consistent(s[i])
}

proof fn lemma_set_keeps_consistency(s: Seq<Job>, id: Seq<char>, j: Job)
    requires
        lease_consistent(s),
        has_job(s, id),
        job_lease_consistent(j),
    ensures
        lease_consistent(set_job(s, id, j)),
{
    let t = set_job(s, id, j);
    assert forall|i: int| 0 <= i < t.len() implies #[trigger] job_lease_consistent(t[i]) by {
        if i != index_of(s, id) {
            assert(job_lease_consistent(s[i]));
        }
    }
}

proof fn lemma_put_keeps_consistency(s: Seq<Job>, j: Job)
    requires
        lease_consistent(s),
        job_lease_consistent(j),
    ensures
        lease_consistent(put_job(s, j)),
{
    if has_job(s, j.id.0@) {
        lemma_set_keeps_consistency(s, j.id.0@, j);
    } else {
        let t = s.push(j);
        assert forall|i: int| 0 <= i < t.len() implies #[trigger] job_lease_consistent(t[i]) by {
            if i < s.len() {
                assert(job_lease_consistent(s[i]));
            }
        }
    }
}

/// Law: a job holds a lease exactly while it is claimed, and every operation
/// of the store keeps this so (enqueue, restore of such a job, claim,
/// complete, fail, cancel, retry, lease extension, expiry, removal, and the
/// replay-only claim and expiry).
pub proof fn law_lease_held_exactly_while_claimed(
    s: Seq<Job>,
    job_id: JobId,
    job_type: String,
    args: String,
    max_retries: u8,
    restored: Job,
    i: int,
    lease: LeaseId,
    lease_until: i64,
    worker_id: Option<String>,
    result: String,
    error: String,
    now: i64,
)
    requires
        ids_distinct(s),
        lease_consistent(s),
        job_lease_consistent(restored),
    ensures
        lease_consistent(put_job(s, new_job(job_id, job_type, args, max_retries, now))),
        lease_consistent(put_job(s, restored)),
        0 <= i < s.len() && s[i].status == JobStatus::Pending ==> lease_consistent(
            s.update(i, claimed_job(s[i], lease, lease_until, now, worker_id)),
        ),
        lease_consistent(complete_spec(s, job_id, lease, result, now)),
        lease_consistent(fail_spec(s, job_id, lease, error, now)),
        lease_consistent(cancel_spec(s, job_id, now)),
        lease_consistent(retry_spec(s, job_id.0@)),
        lease_consistent(extend_spec(s, job_id, lease, lease_until)),
        lease_consistent(expire_spec(s, now)),
        lease_consistent(remove_job(s, job_id.0@)),
        lease_consistent(apply_claim_spec(s, job_id.0@, lease, lease_until, now, worker_id)),
        lease_consistent(apply_expire_spec(s, job_id.0@)),
{
    let id = job_id.0@;
    lemma_put_keeps_consistency(s, new_job(job_id, job_type, args, max_retries, now));
    lemma_put_keeps_consistency(s, restored);
    if 0 <= i < s.len() && s[i].status == JobStatus::Pending {
        lemma_index_of(s, i);
        lemma_set_keeps_consistency(s, s[i].id.0@, claimed_job(s[i], lease, lease_until, now, worker_id));
    }
    if has_job(s, id) {
        let k = index_of(s, id);
        assert(job_lease_consistent(s[k]));
        let j = job_of(s, id);
        if lease_check(s, job_id, lease) is Ok {
            lemma_set_keeps_consistency(s, id, crate::space::completed_job(j, result, now));
            lemma_set_keeps_consistency(s, id, crate::space::failed_job(j, error, now));
            lemma_set_keeps_consistency(s, id, crate::space::extended_job(j, lease_until));
        }
        if j.status == JobStatus::Pending {
            lemma_set_keeps_consistency(s, id, crate::space::cancelled_job(j, now));
        }
        if j.status == JobStatus::Failed {
            lemma_set_keeps_consistency(s, id, crate::space::retried_job(j));
        }
        if j.status == JobStatus::Claimed {
            lemma_set_keeps_consistency(s, id, expired_job(j));
        }
        lemma_set_keeps_consistency(s, id, claimed_job(j, lease, lease_until, now, worker_id));
        let t = s.remove(k);
        assert forall|a: int| 0 <= a < t.len() implies #[trigger] job_lease_consistent(t[a]) by {
            if a < k {
                assert(job_lease_consistent(s[a]));
            } else {
                assert(job_lease_consistent(s[a + 1]));
            }
        }
    }
    let e = expire_spec(s, now);
    assert forall|a: int| 0 <= a < e.len() implies #[trigger] job_lease_consistent(e[a]) by {
        assert(job_lease_consistent(s[a]));
    }
}

/// Law: on a store where leases are held exactly while claimed, the check made
/// before a completion or failure is logged passes exactly when the store
/// itself accepts the lease, so an event is logged exactly when it changes
/// the store.
pub proof fn law_holder_check_agrees(s: Seq<Job>, job_id: JobId, lease: LeaseId)
    requires
        lease_consistent(s),
    ensures
        (holder_check(s, job_id, lease) is Ok) == (lease_check(s, job_id, lease) is Ok),
{
    if has_job(s, job_id.0@) {
        let k = index_of(s, job_id.0@);
        assert(0 <= k < s.len() && s[k].id.0@ == job_id.0@);
        assert(job_lease_consistent(s[k]));
        assert(job_of(s, job_id.0@) == s[k]);
    }
}

/// Law: each event the durable store logs for an enqueue, completion,
/// failure, cancellation, retry, purge or expiry, replayed at the time it was
/// logged, changes the store exactly as the operation itself did.
pub proof fn law_logged_mutations_replay(
    s: Seq<Job>,
    job_id: JobId,
    job_type: String,
    args: String,
    max_retries: u8,
    lease: LeaseId,
    result: String,
    error: String,
    now: i64,
)
    ensures
        apply_spec(s, EventOp::Enqueue { job_id: job_id.0, job_type, args, max_retries }, now)
            == put_job(s, new_job(job_id, job_type, args, max_retries, now)),
        apply_spec(s, EventOp::Complete { job_id: job_id.0, lease_id: lease.0, result }, now)
            == complete_spec(s, job_id, lease, result, now),
        apply_spec(s, EventOp::Fail { job_id: job_id.0, lease_id: lease.0, error }, now)
            == fail_spec(s, job_id, lease, error, now),
        apply_spec(s, EventOp::Cancel { job_id: job_id.0 }, now) == cancel_spec(s, job_id, now),
        apply_spec(s, EventOp::Retry { job_id: job_id.0 }, now) == retry_spec(s, job_id.0@),
        apply_spec(s, EventOp::Purge { job_id: job_id.0 }, now) == remove_job(s, job_id.0@),
        apply_spec(s, EventOp::Expire { job_id: job_id.0 }, now) == apply_expire_spec(s, job_id.0@),
{
}

/// Law: replaying the event a claim logs (the claimed job's id, the new lease,
/// the lease end and the worker) at the claim's time gives the store the claim
/// left behind.
pub proof fn law_claim_replays(
    s: Seq<Job>,
    i: int,
    lease: LeaseId,
    lease_until: i64,
    worker_id: Option<String>,
    now: i64,
)
    requires
        ids_distinct(s),
        0 <= i < s.len(),
    ensures
        apply_spec(
            s,
            EventOp::Claim { job_id: s[i].id.0, lease_id: lease.0, lease_until, worker_id },
            now,
        ) == s.update(i, claimed_job(s[i], lease, lease_until, now, worker_id)),
{
    lemma_index_of(s, i);
}

/// Law: an operation the store refuses leaves it unchanged: a completion,
/// failure or lease extension without the job's current lease, a cancellation
/// of a job that is not pending, a retry of a job that has not failed.
pub proof fn law_refused_operations_change_nothing(
    s: Seq<Job>,
    job_id: JobId,
    lease: LeaseId,
    result: String,
    error: String,
    until: i64,
    now: i64,
)
    ensures
        lease_check(s, job_id, lease) is Err ==> {
            &&& complete_spec(s, job_id, lease, result, now) == s
            &&& fail_spec(s, job_id, lease, error, now) == s
            &&& extend_spec(s, job_id, lease, until) == s
        },
        cancel_check(s, job_id) is Err ==> cancel_spec(s, job_id, now) == s,
        !retry_allowed(s, job_id.0@) ==> retry_spec(s, job_id.0@) == s,
{
}

/// A job that is done or cancelled.
pub open spec fn is_settled(j: Job) -> bool {
    j.status == JobStatus::Done || j.status == JobStatus::Cancelled
}

/// Law: a done or cancelled job is left exactly as it is by every worker and
/// client operation: claims, completions, failures, cancellations, retries,
/// lease extensions and expiry passes (only removal or replacement touch it).
pub proof fn law_settled_jobs_stay_settled(
    s: Seq<Job>,
    p: int,
    job_id: JobId,
    job_type: Seq<char>,
    i: int,
    lease: LeaseId,
    lease_until: i64,
    worker_id: Option<String>,
    result: String,
    error: String,
    now: i64,
)
    requires
        ids_distinct(s),
        0 <= p < s.len(),
        is_settled(s[p]),
    ensures
        is_next_claim(s, job_type, i) ==> s.update(i, claimed_job(s[i], lease, lease_until, now, worker_id))[p] == s[p],
        complete_spec(s, job_id, lease, result, now)[p] == s[p],
        fail_spec(s, job_id, lease, error, now)[p] == s[p],
        cancel_spec(s, job_id, now)[p] == s[p],
        retry_spec(s, job_id.0@)[p] == s[p],
        extend_spec(s, job_id, lease, lease_until)[p] == s[p],
        expire_spec(s, now)[p] == s[p],
{
    if has_job(s, job_id.0@) {
        let k = index_of(s, job_id.0@);
        assert(0 <= k < s.len() && s[k].id.0@ == job_id.0@);
        assert(job_of(s, job_id.0@) == s[k]);
    }
}

/// The events are expiries of the given ids, in that order.
pub open spec fn expiries_of(ids: Seq<JobId>, events: Seq<StorageEvent>) -> bool {
    &&& events.len() == ids.len()
    &&& forall|k: int| 0 <= k < events.len() ==> #[trigger] events[k].op == EventOp::Expire { job_id: ids[k].0 }
}

/// Every job that `p` picks is expired (back to pending), the rest are kept.
pub open spec fn expire_where(s: Seq<Job>, p: spec_fn(Job) -> bool) -> Seq<Job> {
    Seq::new(s.len(), |i: int| if p(s[i]) { expired_job(s[i]) } else { s[i] })
}

spec fn expired_up_to(s: Seq<Job>, p: spec_fn(Job) -> bool, n: int) -> Seq<Job> {
    Seq::new(s.len(), |i: int| if i < n && p(s[i]) { expired_job(s[i]) } else { s[i] })
}

proof fn lemma_expiries_prefix(s: Seq<Job>, p: spec_fn(Job) -> bool, n: int, events: Seq<StorageEvent>)
    requires
        ids_distinct(s),
        forall|j: Job| #[trigger] p(j) ==> j.status == JobStatus::Claimed,
        0 <= n <= s.len(),
        expiries_of(ids_where(s.take(n), p), events),
    ensures
        replay_spec(s, events) == expired_up_to(s, p, n),
    decreases n,
{
    if n == 0 {
        assert(events.len() == 0);
        assert(s =~= expired_up_to(s, p, 0));
    } else {
        let m = n - 1;
        assert(s.take(n).drop_last() =~= s.take(m));
        assert(s.take(n).last() == s[m]);
        let prev = expired_up_to(s, p, m);
        assert(ids_distinct(prev)) by {
            assert forall|a: int, b: int| 0 <= a < prev.len() && 0 <= b < prev.len() && a != b
                implies #[trigger] prev[a].id.0@ != #[trigger] prev[b].id.0@ by {
                assert(s[a].id.0@ != s[b].id.0@);
            }
        }
        if p(s[m]) {
            let evs = events.drop_last();
            assert(expiries_of(ids_where(s.take(m), p), evs)) by {
                assert forall|k: int| 0 <= k < evs.len() implies
                    #[trigger] evs[k].op == EventOp::Expire { job_id: ids_where(s.take(m), p)[k].0 } by {
                    assert(evs[k] == events[k]);
                }
            }
            lemma_expiries_prefix(s, p, m, evs);
            assert(events[events.len() - 1].op == EventOp::Expire { job_id: s[m].id.0 });
            assert(prev[m] == s[m]);
            lemma_index_of(prev, m);
            assert(replay_spec(s, events) =~= expired_up_to(s, p, n));
        } else {
            lemma_expiries_prefix(s, p, m, events);
            assert(prev =~= expired_up_to(s, p, n));
        }
    }
}

/// Replaying one expiry event for each job that `p` picks (all of them
/// claimed), in store order, expires exactly those jobs.
pub proof fn lemma_expiries_replay(s: Seq<Job>, p: spec_fn(Job) -> bool, events: Seq<StorageEvent>)
    requires
        ids_distinct(s),
        forall|j: Job| #[trigger] p(j) ==> j.status == JobStatus::Claimed,
        expiries_of(ids_where(s, p), events),
    ensures
        replay_spec(s, events) == expire_where(s, p),
{
    assert(s.take(s.len() as int) =~= s);
    lemma_expiries_prefix(s, p, s.len() as int, events);
    assert(expired_up_to(s, p, s.len() as int) =~= expire_where(s, p));
}

proof fn lemma_count_matches_ids(s: Seq<Job>, now: i64)
    ensures
        count_expirable(s, now) == ids_where(s, |j: Job| expirable(j, now)).len(),
    decreases s.len(),
{
    if s.len() > 0 {
        lemma_count_matches_ids(s.drop_last(), now);
    }
}

/// Law: replaying one expiry event for each job that an expiry pass at `now`
/// returns to pending (in store order) gives the store that the pass left
/// behind, and the pass reports exactly that many jobs.
pub proof fn law_expire_replays(s: Seq<Job>, now: i64, events: Seq<StorageEvent>)
    requires
        ids_distinct(s),
        expiries_of(ids_where(s, |j: Job| expirable(j, now)), events),
    ensures
        replay_spec(s, events) == expire_spec(s, now),
        count_expirable(s, now) == events.len(),
{
    let p = |j: Job| expirable(j, now);
    lemma_expiries_replay(s, p, events);
    assert(expire_where(s, p) =~= expire_spec(s, now));
    lemma_count_matches_ids(s, now);
}

/// The store after every claimed job is returned to pending.
pub open spec fn drain_spec(s: Seq<Job>) -> Seq<Job> {
    expire_where(s, |j: Job| j.status == JobStatus::Claimed)
}

/// Law: replaying one expiry event for each claimed job, in store order,
/// returns every claimed job to pending and changes nothing else.
pub proof fn law_drain_replays(s: Seq<Job>, events: Seq<StorageEvent>)
    requires
        ids_distinct(s),
        expiries_of(ids_where(s, |j: Job| j.status == JobStatus::Claimed), events),
    ensures
        replay_spec(s, events) == drain_spec(s),
{
    lemma_expiries_replay(s, |j: Job| j.status == JobStatus::Claimed, events);
}

/// The events are purges of the given ids, in that order.
pub open spec fn purges_of(ids: Seq<JobId>, events: Seq<StorageEvent>) -> bool {
    &&& events.len() == ids.len()
    &&& forall|k: int| 0 <= k < events.len() ==> #[trigger] events[k].op == EventOp::Purge { job_id: ids[k].0 }
}

/// The jobs that `p` does not pick, in store order.
pub open spec fn keep_where_not(s: Seq<Job>, p: spec_fn(Job) -> bool) -> Seq<Job> {
    s.filter(|j: Job| !p(j))
}

proof fn lemma_filter_keeps_ids(t: Seq<Job>, q: spec_fn(Job) -> bool)
    requires
        ids_distinct(t),
    ensures
        ids_distinct(t.filter(q)),
        forall|i: int| #![trigger t.filter(q)[i]] 0 <= i < t.filter(q).len() ==> exists|k: int| 0 <= k < t.len() && #[trigger] t[k] == t.filter(q)[i],
    decreases t.len(),
{
    reveal_with_fuel(Seq::<_>::filter, 1);
    if t.len() > 0 {
        let d = t.drop_last();
        assert(ids_distinct(d)) by {
            assert forall|a: int, b: int| 0 <= a < d.len() && 0 <= b < d.len() && a != b
                implies #[trigger] d[a].id.0@ != #[trigger] d[b].id.0@ by {
                assert(t[a].id.0@ != t[b].id.0@);
            }
        }
        lemma_filter_keeps_ids(d, q);
        let f = t.filter(q);
        let fd = d.filter(q);
        assert forall|i: int| #![trigger f[i]] 0 <= i < f.len() implies exists|k: int| 0 <= k < t.len() && #[trigger] t[k] == f[i] by {
            if i < fd.len() {
                let k = choose|k: int| 0 <= k < d.len() && #[trigger] d[k] == fd[i];
                assert(t[k] == f[i]);
            } else {
                assert(t[t.len() - 1] == f[i]);
            }
        }
        if q(t.last()) {
            assert forall|a: int, b: int| 0 <= a < f.len() && 0 <= b < f.len() && a != b
                implies #[trigger] f[a].id.0@ != #[trigger] f[b].id.0@ by {
                if a < fd.len() && b < fd.len() {
                    assert(fd[a].id.0@ != fd[b].id.0@);
                } else if a < fd.len() {
                    let k = choose|k: int| 0 <= k < d.len() && #[trigger] d[k] == fd[a];
                    assert(t[k].id.0@ != t[t.len() - 1].id.0@);
                } else {
                    let k = choose|k: int| 0 <= k < d.len() && #[trigger] d[k] == fd[b];
                    assert(t[k].id.0@ != t[t.len() - 1].id.0@);
                }
            }
        }
    }
}

spec fn kept_then_rest(s: Seq<Job>, p: spec_fn(Job) -> bool, n: int) -> Seq<Job> {
    keep_where_not(s.take(n), p) + s.skip(n)
}

proof fn lemma_purges_prefix(s: Seq<Job>, p: spec_fn(Job) -> bool, n: int, events: Seq<StorageEvent>)
    requires
        ids_distinct(s),
        0 <= n <= s.len(),
        purges_of(ids_where(s.take(n), p), events),
    ensures
        replay_spec(s, events) == kept_then_rest(s, p, n),
    decreases n,
{
    reveal_with_fuel(Seq::<_>::filter, 1);
    let q = |j: Job| !p(j);
    if n == 0 {
        assert(events.len() == 0);
        assert(s.take(0) =~= Seq::<Job>::empty());
        assert(s =~= kept_then_rest(s, p, 0));
    } else {
        let m = n - 1;
        assert(s.take(n).drop_last() =~= s.take(m));
        assert(s.take(n).last() == s[m]);
        let kf = s.take(m).filter(q);
        let prev = kept_then_rest(s, p, m);
        if p(s[m]) {
            let evs = events.drop_last();
            assert(purges_of(ids_where(s.take(m), p), evs)) by {
                assert forall|k: int| 0 <= k < evs.len() implies
                    #[trigger] evs[k].op == EventOp::Purge { job_id: ids_where(s.take(m), p)[k].0 } by {
                    assert(evs[k] == events[k]);
                }
            }
            lemma_purges_prefix(s, p, m, evs);
            assert(events[events.len() - 1].op == EventOp::Purge { job_id: s[m].id.0 });
            let tm = s.take(m);
            assert(ids_distinct(tm)) by {
                assert forall|a: int, b: int| 0 <= a < tm.len() && 0 <= b < tm.len() && a != b
                    implies #[trigger] tm[a].id.0@ != #[trigger] tm[b].id.0@ by {
                    assert(s[a].id.0@ != s[b].id.0@);
                }
            }
            lemma_filter_keeps_ids(tm, q);
            assert(ids_distinct(prev)) by {
                assert forall|a: int, b: int| 0 <= a < prev.len() && 0 <= b < prev.len() && a != b
                    implies #[trigger] prev[a].id.0@ != #[trigger] prev[b].id.0@ by {
                    if a < kf.len() && b < kf.len() {
                        assert(kf[a].id.0@ != kf[b].id.0@);
                    } else if a < kf.len() {
                        let k = choose|k: int| 0 <= k < tm.len() && #[trigger] tm[k] == kf[a];
                        assert(prev[b] == s[m + (b - kf.len())]);
                        assert(s[k].id.0@ != s[m + (b - kf.len())].id.0@);
                    } else if b < kf.len() {
                        let k = choose|k: int| 0 <= k < tm.len() && #[trigger] tm[k] == kf[b];
                        assert(prev[a] == s[m + (a - kf.len())]);
                        assert(s[k].id.0@ != s[m + (a - kf.len())].id.0@);
                    } else {
                        assert(prev[a] == s[m + (a - kf.len())]);
                        assert(prev[b] == s[m + (b - kf.len())]);
                    }
                }
            }
            let at = kf.len() as int;
            assert(prev[at] == s[m]);
            lemma_index_of(prev, at);
            assert(s.take(n).filter(q) == kf);
            assert(prev.remove(at) =~= kept_then_rest(s, p, n));
        } else {
            lemma_purges_prefix(s, p, m, events);
            assert(s.take(n).filter(q) == kf.push(s[m]));
            assert(prev =~= kept_then_rest(s, p, n));
        }
    }
}

/// Law: replaying one purge event for each job that a purge picks (in store
/// order) removes exactly those jobs and keeps the others in order; with the
/// purge's selection, that is every finished job that finished before
/// `now - older_than`.
pub proof fn law_purge_replays(s: Seq<Job>, now: i64, older_than: i64, events: Seq<StorageEvent>)
    requires
        ids_distinct(s),
        purges_of(ids_where(s, |j: Job| purgeable(j, clamp_i64(now - older_than))), events),
    ensures
        replay_spec(s, events) == keep_where_not(s, |j: Job| purgeable(j, clamp_i64(now - older_than))),
{
    let p = |j: Job| purgeable(j, clamp_i64(now - older_than));
    assert(s.take(s.len() as int) =~= s);
    lemma_purges_prefix(s, p, s.len() as int, events);
    assert(s.skip(s.len() as int) =~= Seq::<Job>::empty());
    assert(kept_then_rest(s, p, s.len() as int) =~= keep_where_not(s, p));
}

proof fn lemma_restore_prefix(s: Seq<Job>, n: int)
    requires
        ids_distinct(s),
        0 <= n <= s.len(),
    ensures
        restore_all(s.take(n)) == s.take(n),
    decreases n,
{
    if n == 0 {
        assert(s.take(0) =~= Seq::<Job>::empty());
    } else {
        let m = n - 1;
        lemma_restore_prefix(s, m);
        assert(s.take(n).drop_last() =~= s.take(m));
        assert(s.take(n).last() == s[m]);
        if has_job(s.take(m), s[m].id.0@) {
            let k = choose|k: int| 0 <= k < s.take(m).len() && #[trigger] s.take(m)[k].id.0@ == s[m].id.0@;
            assert(s[k].id.0@ != s[m].id.0@);
        }
        assert(s.take(m).push(s[m]) =~= s.take(n));
    }
}

/// Law: a snapshot restores exactly: storing each job that `list(None)`
/// returns, in turn, into an empty store gives back the same store; replaying
/// the events logged after the snapshot then continues from the same state.
pub proof fn law_snapshot_restores(s: Seq<Job>, events: Seq<StorageEvent>)
    requires
        ids_distinct(s),
    ensures
        restore_all(select(s, None)) == s,
        replay_spec(restore_all(select(s, None)), events) == replay_spec(s, events),
{
    lemma_select_all(s);
    lemma_restore_prefix(s, s.len() as int);
    assert(s.take(s.len() as int) =~= s);
}

proof fn lemma_set_keeps_ids(s: Seq<Job>, id: Seq<char>, j: Job)
    requires
        ids_distinct(s),
        has_job(s, id),
        j.id.0@ == id,
    ensures
        ids_distinct(set_job(s, id, j)),
{
    lemma_update_keeps_ids(s, index_of(s, id), j);
}

proof fn lemma_put_keeps_ids(s: Seq<Job>, j: Job)
    requires
        ids_distinct(s),
    ensures
        ids_distinct(put_job(s, j)),
{
    if has_job(s, j.id.0@) {
        lemma_set_keeps_ids(s, j.id.0@, j);
    } else {
        lemma_push_keeps_ids(s, j);
    }
}

proof fn lemma_apply_keeps_ids(s: Seq<Job>, op: EventOp, ts: i64)
    requires
        ids_distinct(s),
    ensures
        ids_distinct(apply_spec(s, op, ts)),
{
    match op {
        EventOp::Enqueue { job_id, job_type, args, max_retries } => {
            lemma_put_keeps_ids(s, new_job(JobId(job_id), job_type, args, max_retries, ts));
        },
        EventOp::Purge { job_id } => {
            let id = job_id@;
            if has_job(s, id) {
                lemma_remove_keeps_ids(s, index_of(s, id));
            }
        },
        _ => {
            let id = match op {
                EventOp::Claim { job_id, .. } => job_id@,
                EventOp::Complete { job_id, .. } => job_id@,
                EventOp::Fail { job_id, .. } => job_id@,
                EventOp::Cancel { job_id } => job_id@,
                EventOp::Expire { job_id } => job_id@,
                EventOp::Retry { job_id } => job_id@,
                _ => Seq::empty(),
            };
            if has_job(s, id) {
                let k = index_of(s, id);
                assert(0 <= k < s.len() && s[k].id.0@ == id);
                let j = job_of(s, id);
                match op {
                    EventOp::Claim { lease_id, lease_until, worker_id, .. } =>
                        lemma_set_keeps_ids(s, id, claimed_job(j, LeaseId(lease_id), lease_until, ts, worker_id)),
                    EventOp::Complete { result, .. } =>
                        lemma_set_keeps_ids(s, id, completed_job(j, result, ts)),
                    EventOp::Fail { error, .. } =>
                        lemma_set_keeps_ids(s, id, failed_job(j, error, ts)),
                    EventOp::Cancel { .. } => lemma_set_keeps_ids(s, id, cancelled_job(j, ts)),
                    EventOp::Expire { .. } => lemma_set_keeps_ids(s, id, expired_job(j)),
                    EventOp::Retry { .. } => lemma_set_keeps_ids(s, id, retried_job(j)),
                    _ => {},
                }
            }
        },
    }
}

/// Replaying a log keeps job ids distinct.
pub proof fn lemma_replay_keeps_ids(start: Seq<Job>, events: Seq<StorageEvent>)
    requires
        ids_distinct(start),
    ensures
        ids_distinct(replay_spec(start, events)),
    decreases events.len(),
{
    if events.len() > 0 {
        lemma_replay_keeps_ids(start, events.drop_last());
        let e = events.last();
        lemma_apply_keeps_ids(replay_spec(start, events.drop_last()), e.op, e.timestamp);
    }
}

/// Law: replaying a log in two parts, the second from where the first left
/// off, is replaying it whole.
pub proof fn law_replay_in_parts(start: Seq<Job>, first: Seq<StorageEvent>, rest: Seq<StorageEvent>)
    ensures
        replay_spec(replay_spec(start, first), rest) == replay_spec(start, first + rest),
    decreases rest.len(),
{
    if rest.len() == 0 {
        assert(first + rest =~= first);
    } else {
        law_replay_in_parts(start, first, rest.drop_last());
        assert((first + rest).drop_last() =~= first + rest.drop_last());
        assert((first + rest).last() == rest.last());
    }
}

/// Law (recovery): a store rebuilt from a snapshot of the state after some
/// events, followed by the events logged after the snapshot, equals the store
/// rebuilt by replaying the whole log from the start.
pub proof fn law_recovery_from_snapshot(before: Seq<StorageEvent>, after: Seq<StorageEvent>)
    ensures
        replay_spec(restore_all(select(replay_spec(Seq::empty(), before), None)), after)
            == replay_spec(Seq::empty(), before + after),
{
    let s = replay_spec(Seq::empty(), before);
    lemma_replay_keeps_ids(Seq::empty(), before);
    law_snapshot_restores(s, after);
    law_replay_in_parts(Seq::empty(), before, after);
}


// ---------------------------------------------------------------------------
// What each operation does to the job it acts on, field by field.
// ---------------------------------------------------------------------------

/// The job at position `i` is the only one that differs between `s` and `t`,
/// which have the same length.
pub open spec fn only_changed_at(s: Seq<Job>, t: Seq<Job>, i: int) -> bool {
    &&& t.len() == s.len()
    &&& forall|k: int| 0 <= k < s.len() && k != i ==> #[trigger] t[k] == s[k]
}

/// Law: a completion, failure or lease extension is accepted exactly when
/// the job exists, is claimed and carries the caller's lease; otherwise the
/// answer is "not found" for a missing job, "not claimed" for a job in
/// another state, and "lease invalid" for a claimed job under another lease.
pub proof fn law_lease_check_answers(s: Seq<Job>, job_id: JobId, lease: LeaseId)
    ensures
        (lease_check(s, job_id, lease) is Ok) == (has_job(s, job_id.0@)
            && job_of(s, job_id.0@).status == JobStatus::Claimed
            && job_of(s, job_id.0@).lease_id is Some
            && (job_of(s, job_id.0@).lease_id->0).0@ == lease.0@),
        !has_job(s, job_id.0@) ==> lease_check(s, job_id, lease) == Err::<(), SpaceError>(SpaceError::NotFound(job_id)),
        has_job(s, job_id.0@) && job_of(s, job_id.0@).status != JobStatus::Claimed
            ==> lease_check(s, job_id, lease) == Err::<(), SpaceError>(SpaceError::NotClaimed(job_of(s, job_id.0@).id)),
        has_job(s, job_id.0@) && job_of(s, job_id.0@).status == JobStatus::Claimed
            && !(job_of(s, job_id.0@).lease_id is Some && (job_of(s, job_id.0@).lease_id->0).0@ == lease.0@)
            ==> lease_check(s, job_id, lease) == Err::<(), SpaceError>(SpaceError::LeaseInvalid),
{
}

/// Law: an accepted completion marks only that job done, with the result and
/// the finish time, and takes its lease away; the rest of the job is kept.
pub proof fn law_complete_outcome(s: Seq<Job>, job_id: JobId, lease: LeaseId, result: String, now: i64)
    requires
        lease_check(s, job_id, lease) is Ok,
    ensures
        ({
            let i = index_of(s, job_id.0@);
            let t = complete_spec(s, job_id, lease, result, now);
            &&& 0 <= i < s.len() && s[i].id.0@ == job_id.0@
            &&& only_changed_at(s, t, i)
            &&& t[i].status == JobStatus::Done
            &&& t[i].result == Some(result)
            &&& t[i].finished_at == Some(now)
            &&& t[i].lease_id is None && t[i].lease_until is None
            &&& t[i].id == s[i].id && t[i].job_type == s[i].job_type && t[i].args == s[i].args
            &&& t[i].retries == s[i].retries && t[i].max_retries == s[i].max_retries
            &&& t[i].enqueued_at == s[i].enqueued_at && t[i].started_at == s[i].started_at
            &&& t[i].error == s[i].error && t[i].worker_id == s[i].worker_id
        }),
{
}

/// Law: an accepted failure counts one more attempt (the `u8` counter wraps)
/// and takes the lease away. While the count stays below the job's
/// `max_retries` the job goes back to pending with no start time, its error
/// untouched; otherwise it fails for good with the error and the finish time.
pub proof fn law_fail_outcome(s: Seq<Job>, job_id: JobId, lease: LeaseId, error: String, now: i64)
    requires
        lease_check(s, job_id, lease) is Ok,
    ensures
        ({
            let i = index_of(s, job_id.0@);
            let t = fail_spec(s, job_id, lease, error, now);
            &&& 0 <= i < s.len() && s[i].id.0@ == job_id.0@
            &&& only_changed_at(s, t, i)
            &&& t[i].retries == (s[i].retries + 1) % 256
            &&& t[i].lease_id is None && t[i].lease_until is None
            &&& t[i].id == s[i].id && t[i].job_type == s[i].job_type && t[i].args == s[i].args
            &&& t[i].max_retries == s[i].max_retries && t[i].enqueued_at == s[i].enqueued_at
            &&& t[i].result == s[i].result && t[i].worker_id == s[i].worker_id
            &&& t[i].retries < s[i].max_retries ==> {
                &&& t[i].status == JobStatus::Pending
                &&& t[i].started_at is None
                &&& t[i].error == s[i].error
                &&& t[i].finished_at == s[i].finished_at
            }
            &&& t[i].retries >= s[i].max_retries ==> {
                &&& t[i].status == JobStatus::Failed
                &&& t[i].error == Some(error)
                &&& t[i].finished_at == Some(now)
                &&& t[i].started_at == s[i].started_at
            }
        }),
{
}

/// Law: a job fails for good on its `max_retries`-th failed attempt (at once
/// when it allows none): starting from no failures, attempt `n` (counted from
/// 1, below 256) re-queues exactly when `n < max_retries`.
pub proof fn law_retries_are_bounded(j: Job, error: String, now: i64)
    requires
        j.retries < 255,
    ensures
        (failed_job(j, error, now).status == JobStatus::Pending) == (j.retries + 1 < j.max_retries),
        (failed_job(j, error, now).status == JobStatus::Failed) == (j.retries + 1 >= j.max_retries),
        failed_job(j, error, now).retries == j.retries + 1,
{
}

/// Law: an accepted cancellation marks only that (pending) job cancelled at
/// `now`; a refused one is "not found" for a missing job and "not pending"
/// for a job in another state.
pub proof fn law_cancel_outcome(s: Seq<Job>, job_id: JobId, now: i64)
    ensures
        (cancel_check(s, job_id) is Ok) == (has_job(s, job_id.0@) && job_of(s, job_id.0@).status == JobStatus::Pending),
        !has_job(s, job_id.0@) ==> cancel_check(s, job_id) == Err::<(), SpaceError>(SpaceError::NotFound(job_id)),
        has_job(s, job_id.0@) && job_of(s, job_id.0@).status != JobStatus::Pending
            ==> cancel_check(s, job_id) == Err::<(), SpaceError>(SpaceError::NotPending(job_id)),
        cancel_check(s, job_id) is Ok ==> ({
            let i = index_of(s, job_id.0@);
            let t = cancel_spec(s, job_id, now);
            &&& 0 <= i < s.len()
            &&& only_changed_at(s, t, i)
            &&& t[i] == Job { status: JobStatus::Cancelled, finished_at: Some(now), ..s[i] }
        }),
{
}

/// Law: a retry is allowed exactly for a failed job, and puts only that job
/// back to pending with its attempts, error and finish time cleared.
pub proof fn law_retry_outcome(s: Seq<Job>, job_id: JobId)
    ensures
        retry_allowed(s, job_id.0@) == (has_job(s, job_id.0@) && job_of(s, job_id.0@).status == JobStatus::Failed),
        retry_allowed(s, job_id.0@) ==> ({
            let i = index_of(s, job_id.0@);
            let t = retry_spec(s, job_id.0@);
            &&& 0 <= i < s.len()
            &&& only_changed_at(s, t, i)
            &&& t[i] == Job { status: JobStatus::Pending, retries: 0, error: None, finished_at: None, ..s[i] }
        }),
{
}

/// Law: an accepted lease extension changes only the lease end of that job.
pub proof fn law_extend_outcome(s: Seq<Job>, job_id: JobId, lease: LeaseId, until: i64)
    requires
        lease_check(s, job_id, lease) is Ok,
    ensures
        ({
            let i = index_of(s, job_id.0@);
            let t = extend_spec(s, job_id, lease, until);
            &&& 0 <= i < s.len()
            &&& only_changed_at(s, t, i)
            &&& t[i] == Job { lease_until: Some(until), ..s[i] }
        }),
{
}

/// Law: an expiry pass at `now` returns to pending, with no lease and no
/// start time, exactly the claimed jobs whose lease ended before `now`, and
/// leaves every other job as it is.
pub proof fn law_expire_outcome(s: Seq<Job>, now: i64)
    ensures
        expire_spec(s, now).len() == s.len(),
        forall|k: int| #![trigger expire_spec(s, now)[k]] 0 <= k < s.len() ==> {
            let t = expire_spec(s, now);
            if s[k].status == JobStatus::Claimed && s[k].lease_until is Some && s[k].lease_until->0 < now {
                t[k] == Job { status: JobStatus::Pending, started_at: None, lease_until: None, lease_id: None, ..s[k] }
            } else {
                t[k] == s[k]
            }
        },
{
}

/// Law: a claim marks the chosen job claimed at `now`, under the new lease
/// ending at `now + lease_ttl` (clamped), with the caller's worker; and the
/// chosen job is a pending job of the requested type enqueued no later than
/// any other such job (ties go to the smaller id).
pub proof fn law_claim_outcome(
    s: Seq<Job>,
    job_type: Seq<char>,
    i: int,
    lease: LeaseId,
    lease_until: i64,
    now: i64,
    worker_id: Option<String>,
)
    requires
        is_next_claim(s, job_type, i),
    ensures
        s[i].status == JobStatus::Pending && s[i].job_type@ == job_type,
        forall|k: int| #![trigger s[k]] 0 <= k < s.len() && k != i && s[k].status == JobStatus::Pending
            && s[k].job_type@ == job_type ==> s[i].enqueued_at <= s[k].enqueued_at,
        claimed_job(s[i], lease, lease_until, now, worker_id) == (Job {
            status: JobStatus::Claimed,
            started_at: Some(now),
            lease_until: Some(lease_until),
            lease_id: Some(lease),
            worker_id,
            ..s[i]
        }),
{
    assert forall|k: int| #![trigger s[k]] 0 <= k < s.len() && k != i && s[k].status == JobStatus::Pending
        && s[k].job_type@ == job_type implies s[i].enqueued_at <= s[k].enqueued_at by {
        assert(crate::space::claimable(s[k], job_type));
    }
}

/// Law: enqueueing under a new id adds one pending job at the end of the
/// store, enqueued at `now`, with no attempts, lease, start, finish, result
/// or error; the jobs already there are kept.
pub proof fn law_enqueue_outcome(s: Seq<Job>, id: JobId, job_type: String, args: String, max_retries: u8, now: i64)
    requires
        !has_job(s, id.0@),
    ensures
        put_job(s, new_job(id, job_type, args, max_retries, now)) == s.push((Job {
            id,
            job_type,
            args,
            status: JobStatus::Pending,
            retries: 0,
            max_retries,
            enqueued_at: now,
            started_at: None,
            finished_at: None,
            result: None,
            error: None,
            lease_until: None,
            lease_id: None,
            worker_id: None,
        })),
{
}

} // verus!
