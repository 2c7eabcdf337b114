//! The checks and selections that the durable store makes around its log:
//! what it verifies before appending an event, and which jobs an expiry, a
//! purge or a shutdown drain touches.

use vstd::prelude::*;
use crate::clock::{clamp_i64, sub_clamped};
use crate::error::SpaceError;
use crate::space::{TupleSpace, ids_distinct, index_of, lemma_index_of, has_job, job_of, expirable, cancel_check, retry_allowed, select, lease_matches};
use crate::types::{Job, JobId, JobStatus, LeaseId, status_name};

verus! {

/// The check made before a completion or failure is logged: the job must
/// exist and carry the caller's lease.
pub open spec fn holder_check(s: Seq<Job>, job_id: JobId, lease: LeaseId) -> Result<(), SpaceError> {
    if !has_job(s, job_id.0@) {
        Err(SpaceError::NotFound(job_id))
    } else if !(job_of(s, job_id.0@).lease_id matches Some(l) && l.0@ == lease.0@) {
        Err(SpaceError::LeaseInvalid)
    } else {
        Ok(())
    }
}

/// The ids, in store order, of the jobs that satisfy `p`.
pub open spec fn ids_where(s: Seq<Job>, p: spec_fn(Job) -> bool) -> Seq<JobId>
    decreases s.len(),
{
    if s.len() == 0 {
        Seq::empty()
    } else {
        let rest = ids_where(s.drop_last(), p);
        if p(s.last()) {
            rest.push(s.last().id)
        } else {
            rest
        }
    }
}

/// With distinct ids, the ids `ids_where` picks are the ids of exactly the
/// jobs that satisfy `p`.
pub proof fn lemma_ids_where(s: Seq<Job>, p: spec_fn(Job) -> bool)
    requires
        ids_distinct(s),
    ensures
        forall|k: int| 0 <= k < s.len() && #[trigger] p(s[k]) ==> ids_where(s, p).contains(s[k].id),
        forall|i: int| 0 <= i < ids_where(s, p).len() ==> has_job(s, #[trigger] ids_where(s, p)[i].0@)
            && job_of(s, ids_where(s, p)[i].0@).id == ids_where(s, p)[i]
            && p(job_of(s, ids_where(s, p)[i].0@)),
    decreases s.len(),
{
    if s.len() > 0 {
        let d = s.drop_last();
        assert(ids_distinct(d)) by {
            assert forall|a: int, b: int| 0 <= a < d.len() && 0 <= b < d.len() && a != b
                implies #[trigger] d[a].id.0@ != #[trigger] d[b].id.0@ by {
                assert(s[a].id.0@ != s[b].id.0@);
            }
        }
        lemma_ids_where(d, p);
        let r = ids_where(s, p);
        let rd = ids_where(d, p);
        assert forall|k: int| 0 <= k < s.len() && #[trigger] p(s[k]) implies r.contains(s[k].id) by {
            if k < d.len() {
                assert(d[k] == s[k]);
                assert(rd.contains(d[k].id));
                let i = choose|i: int| 0 <= i < rd.len() && rd[i] == d[k].id;
                if p(s.last()) {
                    assert(r[i] == rd[i]);
                }
            } else {
                assert(r[r.len() - 1] == s.last().id);
            }
        }
        assert forall|i: int| 0 <= i < r.len() implies has_job(s, #[trigger] r[i].0@)
            && job_of(s, r[i].0@).id == r[i] && p(job_of(s, r[i].0@)) by {
            if i < rd.len() {
                assert(r[i] == rd[i]);
                let id = rd[i].0@;
                let k = index_of(d, id);
                assert(0 <= k < d.len() && d[k].id.0@ == id);
                assert(s[k] == d[k]);
                lemma_index_of(d, k);
                lemma_index_of(s, k);
            } else {
                lemma_index_of(s, s.len() - 1);
            }
        }
    }
}

/// Law: a purge picks exactly the finished jobs (done, failed or cancelled)
/// whose finish time is before `now - older_than`.
pub proof fn law_purge_picks_old_finished_jobs(s: Seq<Job>, now: i64, older_than: i64, ids: Seq<JobId>)
    requires
        ids_distinct(s),
        ids == ids_where(s, |j: Job| purgeable(j, clamp_i64(now - older_than))),
    ensures
        forall|k: int| #![trigger s[k]] 0 <= k < s.len()
            && (s[k].status == JobStatus::Done || s[k].status == JobStatus::Failed || s[k].status == JobStatus::Cancelled)
            && s[k].finished_at is Some && s[k].finished_at->0 < clamp_i64(now - older_than)
            ==> ids.contains(s[k].id),
        forall|i: int| 0 <= i < ids.len() ==> {
            let j = job_of(s, #[trigger] ids[i].0@);
            &&& has_job(s, ids[i].0@)
            &&& j.id == ids[i]
            &&& j.status == JobStatus::Done || j.status == JobStatus::Failed || j.status == JobStatus::Cancelled
            &&& j.finished_at is Some && j.finished_at->0 < clamp_i64(now - older_than)
        },
{
    let p = |j: Job| purgeable(j, clamp_i64(now - older_than));
    lemma_ids_where(s, p);
    assert forall|k: int| #![trigger s[k]] 0 <= k < s.len()
        && (s[k].status == JobStatus::Done || s[k].status == JobStatus::Failed || s[k].status == JobStatus::Cancelled)
        && s[k].finished_at is Some && s[k].finished_at->0 < clamp_i64(now - older_than)
        implies ids.contains(s[k].id) by {
        assert(p(s[k]));
    }
    assert forall|i: int| 0 <= i < ids.len() implies p(job_of(s, #[trigger] ids[i].0@)) by {
        assert(ids[i] == ids_where(s, p)[i]);
    }
}

/// Law: an expiry pass picks exactly the claimed jobs whose lease ended
/// before `now`.
pub proof fn law_expiry_picks_overdue_claims(s: Seq<Job>, now: i64, ids: Seq<JobId>)
    requires
        ids_distinct(s),
        ids == ids_where(s, |j: Job| expirable(j, now)),
    ensures
        forall|k: int| #![trigger s[k]] 0 <= k < s.len() && s[k].status == JobStatus::Claimed
            && s[k].lease_until is Some && s[k].lease_until->0 < now
            ==> ids.contains(s[k].id),
        forall|i: int| 0 <= i < ids.len() ==> {
            let j = job_of(s, #[trigger] ids[i].0@);
            &&& has_job(s, ids[i].0@)
            &&& j.id == ids[i]
            &&& j.status == JobStatus::Claimed && j.lease_until is Some && j.lease_until->0 < now
        },
{
    let p = |j: Job| expirable(j, now);
    lemma_ids_where(s, p);
    assert forall|k: int| #![trigger s[k]] 0 <= k < s.len() && s[k].status == JobStatus::Claimed
        && s[k].lease_until is Some && s[k].lease_until->0 < now
        implies ids.contains(s[k].id) by {
        assert(p(s[k]));
    }
    assert forall|i: int| 0 <= i < ids.len() implies p(job_of(s, #[trigger] ids[i].0@)) by {
        assert(ids[i] == ids_where(s, p)[i]);
    }
}

/// Law: a drain picks exactly the claimed jobs.
pub proof fn law_drain_picks_claims(s: Seq<Job>, ids: Seq<JobId>)
    requires
        ids_distinct(s),
        ids == ids_where(s, |j: Job| j.status == JobStatus::Claimed),
    ensures
        forall|k: int| #![trigger s[k]] 0 <= k < s.len() && s[k].status == JobStatus::Claimed
            ==> ids.contains(s[k].id),
        forall|i: int| 0 <= i < ids.len() ==> {
            let j = job_of(s, #[trigger] ids[i].0@);
            &&& has_job(s, ids[i].0@)
            &&& j.id == ids[i]
            &&& j.status == JobStatus::Claimed
        },
{
    let q = |j: Job| j.status == JobStatus::Claimed;
    lemma_ids_where(s, q);
    assert forall|k: int| #![trigger s[k]] 0 <= k < s.len() && s[k].status == JobStatus::Claimed
        implies ids.contains(s[k].id) by {
        assert(q(s[k]));
    }
    assert forall|i: int| 0 <= i < ids.len() implies q(job_of(s, #[trigger] ids[i].0@)) by {
        assert(ids[i] == ids_where(s, q)[i]);
    }
}

/// Finished jobs (done, failed or cancelled).
pub open spec fn is_terminal(st: JobStatus) -> bool {
    st == JobStatus::Done || st == JobStatus::Failed || st == JobStatus::Cancelled
}

/// A finished job whose finish time is before `cutoff`.
pub open spec fn purgeable(j: Job, cutoff: i64) -> bool {
    is_terminal(j.status) && (j.finished_at matches Some(t) && t < cutoff)
}

pub proof fn lemma_select_all(s: Seq<Job>)
    ensures
        select(s, None) == s,
    decreases s.len(),
{
    reveal_with_fuel(Seq::<_>::filter, 1);
    if s.len() > 0 {
        lemma_select_all(s.drop_last());
        assert(s.drop_last().push(s.last()) =~= s);
    }
}

/// Which jobs a selection picks.
enum Pick {
    /// Claimed with a lease that ended before the given time.
    Expiring(i64),
    /// Finished before the given time.
    FinishedBefore(i64),
    /// Claimed.
    Claimed,
}

spec fn picks(p: Pick) -> spec_fn(Job) -> bool {
    match p {
        Pick::Expiring(now) => |j: Job| expirable(j, now),
        Pick::FinishedBefore(cutoff) => |j: Job| purgeable(j, cutoff),
        Pick::Claimed => |j: Job| j.status == JobStatus::Claimed,
    }
}

fn picked(j: &Job, pick: &Pick) -> (r: bool)
    ensures
        r == picks(*pick)(*j),
{
    match pick {
        Pick::Expiring(now) => match (j.status, j.lease_until) {
            (JobStatus::Claimed, Some(t)) => *now > t,
            _ => false,
        },
        Pick::FinishedBefore(cutoff) => match j.finished_at {
            Some(t) => (j.status == JobStatus::Done || j.status == JobStatus::Failed
                || j.status == JobStatus::Cancelled) && t < *cutoff,
            None => false,
        },
        Pick::Claimed => j.status == JobStatus::Claimed,
    }
}

/// The ids of the listed jobs that the selection picks, in order.
fn collect_ids(jobs: &Vec<Job>, pick: Pick) -> (r: Vec<JobId>)
    ensures
        r@ == ids_where(jobs@, picks(pick)),
{
    let n = jobs.len();
    let mut out: Vec<JobId> = Vec::new();
    let mut i: usize = 0;
    while i < n
        invariant
            n == jobs@.len(),
            i <= n,
            out@ == ids_where(jobs@.take(i as int), picks(pick)),
        decreases n - i,
    {
        assert(jobs@.take(i + 1).drop_last() =~= jobs@.take(i as int));
        assert(jobs@.take(i + 1).last() == jobs@[i as int]);
        if picked(&jobs[i], &pick) {
            out.push(jobs[i].id.clone());
        }
        i = i + 1;
    }
    assert(jobs@.take(n as int) =~= jobs@);
    out
}

impl TupleSpace {
    /// The check made before a completion or failure is logged.
    pub fn check_lease_holder(&self, job_id: &JobId, lease_id: &LeaseId) -> (r: Result<(), SpaceError>)
        ensures
            r == holder_check(self@, *job_id, *lease_id),
    {
        match self.get(job_id) {
            None => Err(SpaceError::NotFound(job_id.clone())),
            Some(j) => {
                if lease_matches(&j, lease_id) {
                    Ok(())
                } else {
                    Err(SpaceError::LeaseInvalid)
                }
            },
        }
    }

    /// The check made before a cancellation is logged.
    pub fn check_cancel(&self, job_id: &JobId) -> (r: Result<(), SpaceError>)
        ensures
            r == cancel_check(self@, *job_id),
    {
        match self.get(job_id) {
            None => Err(SpaceError::NotFound(job_id.clone())),
            Some(j) => {
                if j.status != JobStatus::Pending {
                    Err(SpaceError::NotPending(job_id.clone()))
                } else {
                    Ok(())
                }
            },
        }
    }

    /// The check made before a retry is logged.
    pub fn check_retry(&self, job_id: &JobId) -> (r: Result<(), SpaceError>)
        ensures
            match r {
                Ok(()) => retry_allowed(self@, job_id.0@),
                Err(SpaceError::NotFound(id)) => !has_job(self@, job_id.0@) && id == *job_id,
                Err(SpaceError::InvalidTransition { from, to }) => {
                    &&& has_job(self@, job_id.0@)
                    &&& job_of(self@, job_id.0@).status != JobStatus::Failed
                    &&& from@ == status_name(job_of(self@, job_id.0@).status)
                    &&& to@ == "pending"@
                },
                Err(_) => false,
            },
    {
        match self.get(job_id) {
            None => Err(SpaceError::NotFound(job_id.clone())),
            Some(j) => {
                if j.status != JobStatus::Failed {
                    Err(SpaceError::InvalidTransition {
                        from: j.status.as_str().to_owned(),
                        to: "pending".to_owned(),
                    })
                } else {
                    Ok(())
                }
            },
        }
    }

    /// The claimed jobs whose lease ended before `now`, in store order.
    pub fn expiring_ids(&self, now: i64) -> (r: Vec<JobId>)
        ensures
            r@ == ids_where(self@, |j: Job| expirable(j, now)),
            forall|k: int| #![trigger self@[k]] 0 <= k < self@.len() && self@[k].status == JobStatus::Claimed
                && self@[k].lease_until is Some && self@[k].lease_until->0 < now
                ==> r@.contains(self@[k].id),
            forall|i: int| 0 <= i < r@.len() ==> {
                let j = job_of(self@, #[trigger] r@[i].0@);
                &&& has_job(self@, r@[i].0@)
                &&& j.id == r@[i]
                &&& j.status == JobStatus::Claimed && j.lease_until is Some && j.lease_until->0 < now
            },
    {
        let all = self.list(None);
        proof {
            lemma_select_all(self@);
            law_expiry_picks_overdue_claims(self@, now, ids_where(self@, |j: Job| expirable(j, now)));
        }
        collect_ids(&all, Pick::Expiring(now))
    }

    /// The finished jobs whose finish time is more than `older_than` before
    /// `now`, in store order.
    pub fn purgeable_ids(&self, now: i64, older_than: i64) -> (r: Vec<JobId>)
        ensures
            r@ == ids_where(self@, |j: Job| purgeable(j, clamp_i64(now - older_than))),
            forall|k: int| #![trigger self@[k]] 0 <= k < self@.len()
                && (self@[k].status == JobStatus::Done || self@[k].status == JobStatus::Failed
                    || self@[k].status == JobStatus::Cancelled)
                && self@[k].finished_at is Some && self@[k].finished_at->0 < clamp_i64(now - older_than)
                ==> r@.contains(self@[k].id),
            forall|i: int| 0 <= i < r@.len() ==> {
                let j = job_of(self@, #[trigger] r@[i].0@);
                &&& has_job(self@, r@[i].0@)
                &&& j.id == r@[i]
                &&& j.status == JobStatus::Done || j.status == JobStatus::Failed || j.status == JobStatus::Cancelled
                &&& j.finished_at is Some && j.finished_at->0 < clamp_i64(now - older_than)
            },
    {
        let cutoff = sub_clamped(now, older_than);
        let all = self.list(None);
        proof {
            lemma_select_all(self@);
            law_purge_picks_old_finished_jobs(self@, now, older_than,
                ids_where(self@, |j: Job| purgeable(j, clamp_i64(now - older_than))));
        }
        collect_ids(&all, Pick::FinishedBefore(cutoff))
    }

    /// The claimed jobs, in store order.
    pub fn claimed_ids(&self) -> (r: Vec<JobId>)
        ensures
            r@ == ids_where(self@, |j: Job| j.status == JobStatus::Claimed),
            forall|k: int| #![trigger self@[k]] 0 <= k < self@.len() && self@[k].status == JobStatus::Claimed
                ==> r@.contains(self@[k].id),
            forall|i: int| 0 <= i < r@.len() ==> {
                let j = job_of(self@, #[trigger] r@[i].0@);
                &&& has_job(self@, r@[i].0@)
                &&& j.id == r@[i]
                &&& j.status == JobStatus::Claimed
            },
    {
        let all = self.list(None);
        proof {
            lemma_select_all(self@);
            law_drain_picks_claims(self@, ids_where(self@, |j: Job| j.status == JobStatus::Claimed));
        }
        collect_ids(&all, Pick::Claimed)
    }
}

} // verus!
