use vstd::prelude::*;
use crate::event::{EventOp, StorageEvent};
use crate::space::{TupleSpace, ids_distinct, put_job, apply_claim_spec, complete_spec, fail_spec,
    cancel_spec, apply_expire_spec, remove_job, retry_spec};
use crate::types::{Job, JobId, LeaseId, new_job};
use crate::laws::law_snapshot_restores;
use crate::persist::lemma_select_all;

verus! {

/// The store after one logged event is applied at its timestamp.
pub open spec fn apply_spec(s: Seq<Job>, op: EventOp, timestamp: i64) -> Seq<Job> {
    match op {
        EventOp::Enqueue { job_id, job_type, args, max_retries } =>
            put_job(s, new_job(JobId(job_id), job_type, args, max_retries, timestamp)),
        EventOp::Claim { job_id, lease_id, lease_until, worker_id } =>
            apply_claim_spec(s, job_id@, LeaseId(lease_id), lease_until, timestamp, worker_id),
        EventOp::Complete { job_id, lease_id, result } =>
            complete_spec(s, JobId(job_id), LeaseId(lease_id), result, timestamp),
        EventOp::Fail { job_id, lease_id, error } =>
            fail_spec(s, JobId(job_id), LeaseId(lease_id), error, timestamp),
        EventOp::Cancel { job_id } => cancel_spec(s, JobId(job_id), timestamp),
        EventOp::Expire { job_id } => apply_expire_spec(s, job_id@),
        EventOp::Purge { job_id } => remove_job(s, job_id@),
        EventOp::Retry { job_id } => retry_spec(s, job_id@),
    }
}

/// The store after the events are applied in order, starting from `start`.
pub open spec fn replay_spec(start: Seq<Job>, events: Seq<StorageEvent>) -> Seq<Job>
    decreases events.len(),
{
    if events.len() == 0 {
        start
    } else {
        let e = events.last();
        apply_spec(replay_spec(start, events.drop_last()), e.op, e.timestamp)
    }
}

/// The store holding the given jobs, each stored in turn into an empty store.
pub open spec fn restore_all(jobs: Seq<Job>) -> Seq<Job>
    decreases jobs.len(),
{
    if jobs.len() == 0 {
        Seq::empty()
    } else {
        put_job(restore_all(jobs.drop_last()), jobs.last())
    }
}

/// The store a snapshot seeds (empty without one).
pub open spec fn snapshot_state(snapshot: Option<Vec<Job>>) -> Seq<Job> {
    match snapshot {
        Some(jobs) => restore_all(jobs@),
        None => Seq::empty(),
    }
}

/// Apply one logged event to the store at the given timestamp. Refused
/// operations (a stale lease, a job in the wrong state) leave it unchanged.
pub fn apply(space: &mut TupleSpace, op: EventOp, timestamp: i64)
    ensures
        final(space)@ == apply_spec(old(space)@, op, timestamp),
        ids_distinct(final(space)@),
{
    match op {
        EventOp::Enqueue { job_id, job_type, args, max_retries } => {
            space.enqueue_with_id(JobId(job_id), job_type, args, max_retries, timestamp);
        },
        EventOp::Claim { job_id, lease_id, lease_until, worker_id } => {
            space.apply_claim(JobId(job_id), LeaseId(lease_id), lease_until, timestamp, worker_id);
        },
        EventOp::Complete { job_id, lease_id, result } => {
            let _ = space.complete(&JobId(job_id), &LeaseId(lease_id), result, timestamp);
        },
        EventOp::Fail { job_id, lease_id, error } => {
            let _ = space.fail(&JobId(job_id), &LeaseId(lease_id), error, timestamp);
        },
        EventOp::Cancel { job_id } => {
            let _ = space.cancel(&JobId(job_id), timestamp);
        },
        EventOp::Expire { job_id } => {
            space.apply_expire(JobId(job_id));
        },
        EventOp::Purge { job_id } => {
            space.remove(&JobId(job_id));
        },
        EventOp::Retry { job_id } => {
            let _ = space.retry(&JobId(job_id), timestamp);
        },
    }
}

/// Law: a snapshot of jobs with distinct ids seeds a store holding exactly
/// those jobs, in order, each as it was (whatever its status); no snapshot
/// seeds an empty store.
pub proof fn law_snapshot_seeds_its_jobs(jobs: Vec<Job>)
    requires
        ids_distinct(jobs@),
    ensures
        snapshot_state(Some(jobs)) == jobs@,
        snapshot_state(None) == Seq::<Job>::empty(),
{
    law_snapshot_restores(jobs@, Seq::empty());
    lemma_select_all(jobs@);
}

/// Rebuild the store from an optional snapshot and the events logged after it.
pub fn replay(snapshot_jobs: Option<Vec<Job>>, events: Vec<StorageEvent>) -> (r: TupleSpace)
    ensures
        r@ == replay_spec(snapshot_state(snapshot_jobs), events@),
        ids_distinct(r@),
        snapshot_jobs is Some && ids_distinct(snapshot_jobs->0@)
            ==> r@ == replay_spec(snapshot_jobs->0@, events@),
        snapshot_jobs is None ==> r@ == replay_spec(Seq::empty(), events@),
{
    proof {
        if snapshot_jobs is Some && ids_distinct(snapshot_jobs->0@) {
            law_snapshot_seeds_its_jobs(snapshot_jobs->0);
        }
    }
    let mut space = TupleSpace::new();
    let ghost snap = snapshot_jobs;
    if let Some(jobs) = snapshot_jobs {
        let ghost all = jobs@;
        for job in it: jobs
            invariant
                it.seq() == all,
                space@ == restore_all(all.take(it.index() as int)),
                ids_distinct(space@),
        {
            assert(all.take(it.index() + 1).drop_last() =~= all.take(it.index() as int));
            space.restore(job);
        }
        assert(all.take(all.len() as int) =~= all);
    }
    let ghost evs = events@;
    let ghost start = space@;
    assert(start == snapshot_state(snap));
    for ev in it: events
        invariant
            it.seq() == evs,
            space@ == replay_spec(start, evs.take(it.index() as int)),
            ids_distinct(space@),
    {
        assert(evs.take(it.index() + 1).drop_last() =~= evs.take(it.index() as int));
        apply(&mut space, ev.op, ev.timestamp);
    }
    assert(evs.take(evs.len() as int) =~= evs);
    space
}

} // verus!
