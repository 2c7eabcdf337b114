//! The durable store: the in-memory store together with the event log that
//! rebuilds it. Each operation here either hands back the event to append
//! before the change is made (`prepare_*`, then `commit`) or makes the change
//! and hands back the events that record it. The log itself is kept by the
//! caller; this type carries, as ghost state, the store the log starts from
//! and the events appended since, and states when replaying them gives the
//! store back.

use vstd::prelude::*;
use crate::clock::clamp_i64;
use crate::error::SpaceError;
use crate::event::{EventOp, StorageEvent};
use crate::laws::{law_claim_replays, law_drain_replays, law_expire_replays, law_purge_replays,
    law_replay_in_parts, law_snapshot_restores, drain_spec, expiries_of, purges_of, keep_where_not};
use crate::persist::{holder_check, ids_where, lemma_select_all, purgeable};
use crate::replay::{apply_spec, replay, replay_spec, restore_all, snapshot_state};
use crate::space::{TupleSpace, ids_distinct, has_job, index_of, job_of, cancel_check, lease_check,
    retry_allowed, expirable, expire_spec, count_expirable, has_claimable, is_next_claim,
    claimed_job, extend_spec, select};
use crate::types::{Job, JobId, JobStatus, LeaseId, clone_opt_string, is_uuid_v4_text};

verus! {

/// The log entry for `op` appended at `timestamp` (its position in the log
/// plays no part in replay).
pub open spec fn entry(op: EventOp, timestamp: i64) -> StorageEvent {
    StorageEvent { seq: 0, timestamp, op }
}

/// The log entries for `ops`, all appended at `timestamp`.
pub open spec fn entries(ops: Seq<EventOp>, timestamp: i64) -> Seq<StorageEvent> {
    Seq::new(ops.len(), |k: int| entry(ops[k], timestamp))
}

/// Two logs that hold the same operations at the same times, in the same
/// order (whatever their positions).
pub open spec fn same_entries(a: Seq<StorageEvent>, b: Seq<StorageEvent>) -> bool {
    &&& a.len() == b.len()
    &&& forall|k: int| 0 <= k < a.len() ==> #[trigger] a[k].op == b[k].op && a[k].timestamp == b[k].timestamp
}

/// One expiry for each id, in order.
pub open spec fn expire_ops(ids: Seq<JobId>) -> Seq<EventOp> {
    Seq::new(ids.len(), |k: int| EventOp::Expire { job_id: ids[k].0 })
}

/// One purge for each id, in order.
pub open spec fn purge_ops(ids: Seq<JobId>) -> Seq<EventOp> {
    Seq::new(ids.len(), |k: int| EventOp::Purge { job_id: ids[k].0 })
}

/// What `commit` reports for an operation other than a retry on the store
/// `s`: the lease check for a completion or failure, the pending check for a
/// cancellation, success for the rest.
pub open spec fn commit_result(s: Seq<Job>, op: EventOp) -> Result<(), SpaceError> {
    match op {
        EventOp::Complete { job_id, lease_id, .. } => lease_check(s, JobId(job_id), LeaseId(lease_id)),
        EventOp::Fail { job_id, lease_id, .. } => lease_check(s, JobId(job_id), LeaseId(lease_id)),
        EventOp::Cancel { job_id } => cancel_check(s, JobId(job_id)),
        _ => Ok(()),
    }
}

/// Law: replay reads only the operation and the time of each entry, so two
/// logs with the same entries rebuild the same store.
pub proof fn law_replay_ignores_positions(start: Seq<Job>, a: Seq<StorageEvent>, b: Seq<StorageEvent>)
    requires
        same_entries(a, b),
    ensures
        replay_spec(start, a) == replay_spec(start, b),
    decreases a.len(),
{
    if a.len() > 0 {
        let (da, db) = (a.drop_last(), b.drop_last());
        assert(same_entries(da, db)) by {
            assert forall|k: int| 0 <= k < da.len() implies #[trigger] da[k].op == db[k].op
                && da[k].timestamp == db[k].timestamp by {
                assert(a[k].op == b[k].op && a[k].timestamp == b[k].timestamp);
            }
        }
        law_replay_ignores_positions(start, da, db);
        assert(a[a.len() - 1].op == b[b.len() - 1].op);
    }
}

/// Law: with distinct ids, storing each job of a list in turn into an empty
/// store gives back exactly that list, so a snapshot seeds the store it was
/// taken from.
pub proof fn law_restore_is_identity(jobs: Seq<Job>)
    requires
        ids_distinct(jobs),
    ensures
        restore_all(jobs) == jobs,
{
    law_snapshot_restores(jobs, Seq::empty());
    lemma_select_all(jobs);
}

proof fn lemma_push_entry(start: Seq<Job>, log: Seq<StorageEvent>, op: EventOp, ts: i64)
    ensures
        replay_spec(start, log.push(entry(op, ts))) == apply_spec(replay_spec(start, log), op, ts),
{
    assert(log.push(entry(op, ts)).drop_last() =~= log);
}

/// A job store whose every change is recorded in an event log.
pub struct DurableSpace {
    space: TupleSpace,
    base: Ghost<Seq<Job>>,
    log: Ghost<Seq<StorageEvent>>,
    exact: Ghost<bool>,
}

impl View for DurableSpace {
    type V = Seq<Job>;

    /// The jobs of the store, in store order.
    closed spec fn view(&self) -> Seq<Job> {
        self.space@
    }
}

impl DurableSpace {
    /// The store the log starts from (the last snapshot, or empty).
    pub closed spec fn base(&self) -> Seq<Job> {
        self.base@
    }

    /// The entries appended to the log since `base`, in order.
    pub closed spec fn logged(&self) -> Seq<StorageEvent> {
        self.log@
    }

    /// No change since `base` has gone unlogged (a heartbeat, or an append
    /// that failed).
    pub closed spec fn exact(&self) -> bool {
        self.exact@
    }

    /// Ids are distinct, and while no change has gone unlogged, replaying
    /// the log from `base` gives the store.
    pub open spec fn wf(&self) -> bool {
        &&& ids_distinct(self@)
        &&& self.exact() ==> self@ == replay_spec(self.base(), self.logged())
    }

    /// An empty store on an empty log.
    pub fn new() -> (r: DurableSpace)
        ensures
            r.wf(),
            r@ == Seq::<Job>::empty(),
            r.base() == Seq::<Job>::empty(),
            r.logged() == Seq::<StorageEvent>::empty(),
            r.exact(),
    {
        DurableSpace {
            space: TupleSpace::new(),
            base: Ghost(Seq::empty()),
            log: Ghost(Seq::empty()),
            exact: Ghost(true),
        }
    }

    /// The store rebuilt from the latest snapshot (if any) and the events
    /// logged after it.
    pub fn recover(snapshot: Option<Vec<Job>>, events: Vec<StorageEvent>) -> (r: DurableSpace)
        ensures
            r.wf(),
            r@ == replay_spec(snapshot_state(snapshot), events@),
            r.base() == snapshot_state(snapshot),
            r.logged() == events@,
            r.exact(),
    {
        let ghost base = snapshot_state(snapshot);
        let ghost evs = events@;
        let space = replay(snapshot, events);
        DurableSpace { space, base: Ghost(base), log: Ghost(evs), exact: Ghost(true) }
    }

    /// Apply an operation whose event has been appended at `now`: the store
    /// changes exactly as replaying that event changes it.
    pub fn commit(&mut self, op: EventOp, now: i64) -> (r: Result<(), SpaceError>)
        requires
            old(self).wf(),
        ensures
            final(self).wf(),
            final(self)@ == apply_spec(old(self)@, op, now),
            final(self).logged() == old(self).logged().push(entry(op, now)),
            final(self).base() == old(self).base(),
            final(self).exact() == old(self).exact(),
            op is Retry ==> match r {
                Ok(()) => retry_allowed(old(self)@, op->Retry_job_id@),
                Err(SpaceError::NotFound(id)) => !has_job(old(self)@, op->Retry_job_id@)
                    && id == JobId(op->Retry_job_id),
                Err(SpaceError::InvalidTransition { from, to }) => {
                    &&& has_job(old(self)@, op->Retry_job_id@)
                    &&& job_of(old(self)@, op->Retry_job_id@).status != JobStatus::Failed
                    &&& from@ == crate::types::status_name(job_of(old(self)@, op->Retry_job_id@).status)
                    &&& to@ == "pending"@
                },
                Err(_) => false,
            },
            !(op is Retry) ==> r == commit_result(old(self)@, op),
    {
        let ghost g = op;
        let r = match op {
            EventOp::Enqueue { job_id, job_type, args, max_retries } => {
                self.space.enqueue_with_id(JobId(job_id), job_type, args, max_retries, now);
                Ok(())
            },
            EventOp::Claim { job_id, lease_id, lease_until, worker_id } => {
                self.space.apply_claim(JobId(job_id), LeaseId(lease_id), lease_until, now, worker_id);
                Ok(())
            },
            EventOp::Complete { job_id, lease_id, result } => {
                self.space.complete(&JobId(job_id), &LeaseId(lease_id), result, now)
            },
            EventOp::Fail { job_id, lease_id, error } => {
                self.space.fail(&JobId(job_id), &LeaseId(lease_id), error, now)
            },
            EventOp::Cancel { job_id } => self.space.cancel(&JobId(job_id), now),
            EventOp::Expire { job_id } => {
                self.space.apply_expire(JobId(job_id));
                Ok(())
            },
            EventOp::Purge { job_id } => {
                self.space.remove(&JobId(job_id));
                Ok(())
            },
            EventOp::Retry { job_id } => self.space.retry(&JobId(job_id), now),
        };
        proof { lemma_push_entry(self.base@, self.log@, g, now); }
        self.log = Ghost(self.log@.push(entry(g, now)));
        r
    }

    /// A fresh job id and the event that enqueues a job under it.
    pub fn prepare_enqueue(job_type: String, args: String, max_retries: u8) -> (r: (JobId, EventOp))
        ensures
            r.1 == (EventOp::Enqueue { job_id: r.0.0, job_type, args, max_retries }),
            is_uuid_v4_text(r.0.0@),
    {
        let id = JobId::new();
        let op = EventOp::Enqueue { job_id: id.0.clone(), job_type, args, max_retries };
        (id, op)
    }

    /// The event that completes the job with `result`, once the job is found
    /// to carry the caller's lease; otherwise the error.
    pub fn prepare_complete(&self, job_id: &JobId, lease_id: &LeaseId, result: String) -> (r: Result<EventOp, SpaceError>)
        ensures
            match r {
                Ok(op) => holder_check(self@, *job_id, *lease_id) is Ok
                    && op == (EventOp::Complete { job_id: job_id.0, lease_id: lease_id.0, result }),
                Err(e) => holder_check(self@, *job_id, *lease_id) == Err::<(), SpaceError>(e),
            },
    {
        match self.space.check_lease_holder(job_id, lease_id) {
            Ok(()) => Ok(EventOp::Complete { job_id: job_id.0.clone(), lease_id: lease_id.0.clone(), result }),
            Err(e) => Err(e),
        }
    }

    /// The event that records a failed attempt with `error`, once the job is
    /// found to carry the caller's lease; otherwise the error.
    pub fn prepare_fail(&self, job_id: &JobId, lease_id: &LeaseId, error: String) -> (r: Result<EventOp, SpaceError>)
        ensures
            match r {
                Ok(op) => holder_check(self@, *job_id, *lease_id) is Ok
                    && op == (EventOp::Fail { job_id: job_id.0, lease_id: lease_id.0, error }),
                Err(e) => holder_check(self@, *job_id, *lease_id) == Err::<(), SpaceError>(e),
            },
    {
        match self.space.check_lease_holder(job_id, lease_id) {
            Ok(()) => Ok(EventOp::Fail { job_id: job_id.0.clone(), lease_id: lease_id.0.clone(), error }),
            Err(e) => Err(e),
        }
    }

    /// The event that cancels the job, once it is found pending; otherwise
    /// the error.
    pub fn prepare_cancel(&self, job_id: &JobId) -> (r: Result<EventOp, SpaceError>)
        ensures
            match r {
                Ok(op) => cancel_check(self@, *job_id) is Ok && op == (EventOp::Cancel { job_id: job_id.0 }),
                Err(e) => cancel_check(self@, *job_id) == Err::<(), SpaceError>(e),
            },
    {
        match self.space.check_cancel(job_id) {
            Ok(()) => Ok(EventOp::Cancel { job_id: job_id.0.clone() }),
            Err(e) => Err(e),
        }
    }

    /// The event that retries the job, once it is found failed; otherwise
    /// the error.
    pub fn prepare_retry(&self, job_id: &JobId) -> (r: Result<EventOp, SpaceError>)
        ensures
            match r {
                Ok(op) => retry_allowed(self@, job_id.0@) && op == (EventOp::Retry { job_id: job_id.0 }),
                Err(SpaceError::NotFound(id)) => !has_job(self@, job_id.0@) && id == *job_id,
                Err(SpaceError::InvalidTransition { from, to }) => {
                    &&& has_job(self@, job_id.0@)
                    &&& job_of(self@, job_id.0@).status != JobStatus::Failed
                    &&& from@ == crate::types::status_name(job_of(self@, job_id.0@).status)
                    &&& to@ == "pending"@
                },
                Err(_) => false,
            },
    {
        match self.space.check_retry(job_id) {
            Ok(()) => Ok(EventOp::Retry { job_id: job_id.0.clone() }),
            Err(e) => Err(e),
        }
    }

    /// Claim the oldest pending job of the type under a new lease ending at
    /// `now + lease_ttl`, and hand back the event that records the claim.
    pub fn claim(&mut self, job_type: &str, lease_ttl: i64, worker_id: Option<String>, now: i64) -> (r: Option<(Job, LeaseId, EventOp)>)
        requires
            old(self).wf(),
        ensures
            final(self).wf(),
            final(self).base() == old(self).base(),
            final(self).exact() == old(self).exact(),
            match r {
                None => {
                    &&& !has_claimable(old(self)@, job_type@)
                    &&& final(self)@ == old(self)@
                    &&& final(self).logged() == old(self).logged()
                },
                Some((job, lease, op)) => {
                    let i = index_of(old(self)@, job.id.0@);
                    &&& has_job(old(self)@, job.id.0@)
                    &&& is_next_claim(old(self)@, job_type@, i)
                    &&& job == claimed_job(old(self)@[i], lease, clamp_i64(now + lease_ttl), now, worker_id)
                    &&& final(self)@ == old(self)@.update(i, job)
                    &&& is_uuid_v4_text(lease.0@)
                    &&& op == (EventOp::Claim {
                        job_id: job.id.0,
                        lease_id: lease.0,
                        lease_until: clamp_i64(now + lease_ttl),
                        worker_id,
                    })
                    &&& final(self).logged() == old(self).logged().push(entry(op, now))
                },
            },
    {
        let ghost s0 = self.space@;
        let worker = clone_opt_string(&worker_id);
        match self.space.claim(job_type, lease_ttl, worker_id, now) {
            None => None,
            Some((job, lease)) => {
                let op = EventOp::Claim {
                    job_id: job.id.0.clone(),
                    lease_id: lease.0.clone(),
                    lease_until: crate::clock::add_clamped(now, lease_ttl),
                    worker_id: worker,
                };
                proof {
                    let i = index_of(s0, job.id.0@);
                    law_claim_replays(s0, i, lease, clamp_i64(now + lease_ttl), worker_id, now);
                    lemma_push_entry(self.base@, self.log@, op, now);
                }
                self.log = Ghost(self.log@.push(entry(op, now)));
                Some((job, lease, op))
            },
        }
    }

    /// Move the lease end of a claimed job to `new_lease_until`. Heartbeats
    /// are not logged, so a moved lease leaves the log behind the store.
    pub fn extend_lease(&mut self, job_id: &JobId, lease_id: &LeaseId, new_lease_until: i64) -> (r: Result<(), SpaceError>)
        requires
            old(self).wf(),
        ensures
            final(self).wf(),
            r == lease_check(old(self)@, *job_id, *lease_id),
            final(self)@ == extend_spec(old(self)@, *job_id, *lease_id, new_lease_until),
            final(self).logged() == old(self).logged(),
            final(self).base() == old(self).base(),
            final(self).exact() == (old(self).exact() && r is Err),
    {
        let r = self.space.extend_lease(job_id, lease_id, new_lease_until);
        if r.is_ok() {
            self.exact = Ghost(false);
        }
        r
    }

    /// Record that events handed out could not be appended: the log no
    /// longer rebuilds the store.
    pub fn mark_unlogged(&mut self)
        requires
            old(self).wf(),
        ensures
            final(self).wf(),
            final(self)@ == old(self)@,
            final(self).logged() == old(self).logged(),
            final(self).base() == old(self).base(),
            !final(self).exact(),
    {
        self.exact = Ghost(false);
    }

    /// The expiry events, in store order, for every claimed job: what a
    /// shutdown drain appends before it returns the jobs to pending.
    pub fn drain_events(&self) -> (r: Vec<EventOp>)
        ensures
            r@ == expire_ops(ids_where(self@, |j: Job| j.status == JobStatus::Claimed)),
    {
        let ids = self.space.claimed_ids();
        expiry_events(&ids)
    }

    /// The expiry events, in store order, for every claimed job whose lease
    /// ended before `now`: what an expiry pass appends before it runs.
    pub fn expire_events(&self, now: i64) -> (r: Vec<EventOp>)
        ensures
            r@ == expire_ops(ids_where(self@, |j: Job| expirable(j, now))),
    {
        let ids = self.space.expiring_ids(now);
        expiry_events(&ids)
    }

    /// Return every claimed job to pending (a shutdown drain), handing back
    /// one expiry event per job, in store order.
    pub fn drain_claimed(&mut self, now: i64) -> (r: Vec<EventOp>)
        requires
            old(self).wf(),
        ensures
            final(self).wf(),
            final(self)@ == drain_spec(old(self)@),
            r@ == expire_ops(ids_where(old(self)@, |j: Job| j.status == JobStatus::Claimed)),
            final(self).logged() == old(self).logged() + entries(r@, now),
            final(self).base() == old(self).base(),
            final(self).exact() == old(self).exact(),
    {
        let ghost s0 = self.space@;
        let ids = self.space.claimed_ids();
        let ops = expiry_events(&ids);
        let n = ids.len();
        let mut i: usize = 0;
        while i < n
            invariant
                n == ids@.len(),
                ops@ == expire_ops(ids@),
                i <= n,
                self.space@ == replay_spec(s0, entries(ops@.take(i as int), now)),
                ids_distinct(self.space@),
                self.base == old(self).base,
                self.log == old(self).log,
                self.exact == old(self).exact,
            decreases n - i,
        {
            proof {
                assert(entries(ops@.take(i + 1), now) =~= entries(ops@.take(i as int), now).push(entry(ops@[i as int], now)));
                lemma_push_entry(s0, entries(ops@.take(i as int), now), ops@[i as int], now);
            }
            self.space.apply_expire(ids[i].clone());
            i = i + 1;
        }
        proof {
            let p = |j: Job| j.status == JobStatus::Claimed;
            assert(ops@.take(n as int) =~= ops@);
            lemma_expiry_entries(ids_where(s0, p), now);
            law_drain_replays(s0, entries(ops@, now));
            law_replay_in_parts(self.base@, self.log@, entries(ops@, now));
        }
        self.log = Ghost(self.log@ + entries(ops@, now));
        ops
    }

    /// Return every claimed job whose lease ended before `now` to pending,
    /// handing back one expiry event per job, in store order (as many as the
    /// jobs returned).
    pub fn expire_leases(&mut self, now: i64) -> (r: Vec<EventOp>)
        requires
            old(self).wf(),
        ensures
            final(self).wf(),
            final(self)@ == expire_spec(old(self)@, now),
            r@ == expire_ops(ids_where(old(self)@, |j: Job| expirable(j, now))),
            r@.len() == count_expirable(old(self)@, now),
            final(self).logged() == old(self).logged() + entries(r@, now),
            final(self).base() == old(self).base(),
            final(self).exact() == old(self).exact(),
    {
        let ghost s0 = self.space@;
        let ids = self.space.expiring_ids(now);
        let ops = expiry_events(&ids);
        let _ = self.space.expire_leases(now);
        proof {
            lemma_expiry_entries(ids@, now);
            law_expire_replays(s0, now, entries(ops@, now));
            law_replay_in_parts(self.base@, self.log@, entries(ops@, now));
        }
        self.log = Ghost(self.log@ + entries(ops@, now));
        ops
    }

    /// The purge events, in store order, for every finished job that
    /// finished before `now - older_than`. Each is appended, then committed.
    pub fn purge_events(&self, now: i64, older_than: i64) -> (r: Vec<EventOp>)
        ensures
            r@ == purge_ops(ids_where(self@, |j: Job| purgeable(j, clamp_i64(now - older_than)))),
    {
        let ids = self.space.purgeable_ids(now, older_than);
        let n = ids.len();
        let mut out: Vec<EventOp> = Vec::new();
        let mut i: usize = 0;
        while i < n
            invariant
                n == ids@.len(),
                i <= n,
                out@ == purge_ops(ids@.take(i as int)),
            decreases n - i,
        {
            out.push(EventOp::Purge { job_id: ids[i].0.clone() });
            i = i + 1;
            assert(out@ =~= purge_ops(ids@.take(i as int)));
        }
        assert(ids@.take(n as int) =~= ids@);
        out
    }

    /// After a snapshot of `list(None)` has been saved and the log truncated:
    /// the log now starts from the store as it is.
    pub fn rebase(&mut self)
        requires
            old(self).wf(),
        ensures
            final(self).wf(),
            final(self)@ == old(self)@,
            final(self).base() == restore_all(select(old(self)@, None)),
            final(self).base() == old(self)@,
            final(self).logged() == Seq::<StorageEvent>::empty(),
            final(self).exact(),
    {
        proof { law_snapshot_restores(self.space@, Seq::empty()); }
        self.base = Ghost(self.space@);
        self.log = Ghost(Seq::empty());
        self.exact = Ghost(true);
    }

    /// The job with the given id, if any.
    pub fn get(&self, job_id: &JobId) -> (r: Option<Job>)
        ensures
            match r {
                Some(j) => has_job(self@, job_id.0@) && j == job_of(self@, job_id.0@),
                None => !has_job(self@, job_id.0@),
            },
    {
        self.space.get(job_id)
    }

    /// The jobs with the given status, or all jobs for `None`, in store order.
    pub fn list(&self, status: Option<JobStatus>) -> (r: Vec<Job>)
        ensures
            r@ == select(self@, status),
    {
        self.space.list(status)
    }

    /// How many jobs the store holds.
    pub fn len(&self) -> (r: usize)
        ensures
            r == self@.len(),
    {
        self.space.len()
    }
}

/// One expiry event for each id, in order.
fn expiry_events(ids: &Vec<JobId>) -> (r: Vec<EventOp>)
    ensures
        r@ == expire_ops(ids@),
{
    let n = ids.len();
    let mut out: Vec<EventOp> = Vec::new();
    let mut i: usize = 0;
    while i < n
        invariant
            n == ids@.len(),
            i <= n,
            out@ == expire_ops(ids@.take(i as int)),
        decreases n - i,
    {
        out.push(EventOp::Expire { job_id: ids[i].0.clone() });
        i = i + 1;
        assert(out@ =~= expire_ops(ids@.take(i as int)));
    }
    assert(ids@.take(n as int) =~= ids@);
    out
}

proof fn lemma_expiry_entries(ids: Seq<JobId>, now: i64)
    ensures
        expiries_of(ids, entries(expire_ops(ids), now)),
{
}

/// Law: the purge events of a store, appended and committed in turn at the
/// time they were picked, remove exactly the jobs that finished before
/// `now - older_than` and keep the others in order.
pub proof fn law_purge_events_replay(s: Seq<Job>, now: i64, older_than: i64)
    requires
        ids_distinct(s),
    ensures
        replay_spec(s, entries(purge_ops(ids_where(s, |j: Job| purgeable(j, clamp_i64(now - older_than)))), now))
            == keep_where_not(s, |j: Job| purgeable(j, clamp_i64(now - older_than))),
{
    let ids = ids_where(s, |j: Job| purgeable(j, clamp_i64(now - older_than)));
    assert(purges_of(ids, entries(purge_ops(ids), now)));
    law_purge_replays(s, now, older_than, entries(purge_ops(ids), now));
}

/// Law (the log rebuilds the store): while no change has gone unlogged since
/// the store was opened or last snapshotted, replaying any log that holds the
/// appended entries, from the store the log starts at, gives the store. In
/// particular, a store opened on an empty log and driven only by logged
/// operations is rebuilt exactly by replaying its whole log from nothing,
/// which is what `replay(None, events)` computes.
pub proof fn law_log_rebuilds_store(d: DurableSpace, events: Seq<StorageEvent>)
    requires
        d.wf(),
        d.exact(),
        same_entries(events, d.logged()),
    ensures
        replay_spec(d.base(), events) == d@,
        d.base() == Seq::<Job>::empty() ==> replay_spec(snapshot_state(None), events) == d@,
        select(d@, None) == d@,
{
    law_replay_ignores_positions(d.base(), events, d.logged());
    lemma_select_all(d@);
}

} // verus!
