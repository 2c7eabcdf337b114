use vstd::prelude::*;
use crate::clock::{clamp_i64, add_clamped};
use crate::error::SpaceError;
use crate::text::{bytes_lt, utf8, str_equal, str_less, lemma_bytes_lt_irreflexive,
    lemma_bytes_lt_transitive, lemma_bytes_lt_total, lemma_utf8_injective};
use crate::types::{Job, JobId, JobStatus, LeaseId, new_job, status_name, is_uuid_v4_text};

verus! {

// ---------------------------------------------------------------------------
// The model: the store is the sequence of its jobs, each id at most once.
// ---------------------------------------------------------------------------

/// No two jobs share an id.
pub open spec fn ids_distinct(s: Seq<Job>) -> bool {
    forall|i: int, k: int|
        0 <= i < s.len() && 0 <= k < s.len() && i != k ==> #[trigger] s[i].id.0@ != #[trigger] s[k].id.0@
}

/// Some job has the given id.
pub open spec fn has_job(s: Seq<Job>, id: Seq<char>) -> bool {
    exists|i: int| 0 <= i < s.len() && #[trigger] s[i].id.0@ == id
}

/// The position of the job with the given id (meaningful when `has_job`).
pub open spec fn index_of(s: Seq<Job>, id: Seq<char>) -> int {
    choose|i: int| 0 <= i < s.len() && #[trigger] s[i].id.0@ == id
}

/// The job with the given id (meaningful when `has_job`).
pub open spec fn job_of(s: Seq<Job>, id: Seq<char>) -> Job {
    s[index_of(s, id)]
}

// ----- single-job transitions ----------------------------------------------

pub open spec fn claimed_job(j: Job, lease: LeaseId, lease_until: i64, started_at: i64, worker_id: Option<String>) -> Job {
    Job {
        status: JobStatus::Claimed,
        started_at: Some(started_at),
        lease_until: Some(lease_until),
        lease_id: Some(lease),
        worker_id,
        ..j
    }
}

pub open spec fn completed_job(j: Job, result: String, now: i64) -> Job {
    Job {
        status: JobStatus::Done,
        result: Some(result),
        finished_at: Some(now),
        lease_until: None,
        lease_id: None,
        ..j
    }
}

/// The retry counter after one more failure (`u8` arithmetic wraps).
pub open spec fn next_retries(r: u8) -> u8 {
    if r < u8::MAX { (r + 1) as u8 } else { 0 }
}

/// A failed attempt: back to pending while retries remain, else failed for good.
pub open spec fn failed_job(j: Job, error: String, now: i64) -> Job {
    let r = next_retries(j.retries);
    if r < j.max_retries {
        Job {
            status: JobStatus::Pending,
            retries: r,
            started_at: None,
            lease_until: None,
            lease_id: None,
            ..j
        }
    } else {
        Job {
            status: JobStatus::Failed,
            retries: r,
            error: Some(error),
            finished_at: Some(now),
            lease_until: None,
            lease_id: None,
            ..j
        }
    }
}

pub open spec fn cancelled_job(j: Job, now: i64) -> Job {
    Job { status: JobStatus::Cancelled, finished_at: Some(now), ..j }
}

pub open spec fn retried_job(j: Job) -> Job {
    Job { status: JobStatus::Pending, error: None, retries: 0, finished_at: None, ..j }
}

pub open spec fn expired_job(j: Job) -> Job {
    Job { status: JobStatus::Pending, started_at: None, lease_until: None, lease_id: None, ..j }
}

pub open spec fn extended_job(j: Job, until: i64) -> Job {
    Job { lease_until: Some(until), ..j }
}

// ----- whole-store transitions ---------------------------------------------

/// Insert a job, replacing the one with the same id if there is one.
pub open spec fn put_job(s: Seq<Job>, j: Job) -> Seq<Job> {
    if has_job(s, j.id.0@) {
        s.update(index_of(s, j.id.0@), j)
    } else {
        s.push(j)
    }
}

pub open spec fn remove_job(s: Seq<Job>, id: Seq<char>) -> Seq<Job> {
    if has_job(s, id) {
        s.remove(index_of(s, id))
    } else {
        s
    }
}

/// Replace the job with the given id by `j` (when it exists).
pub open spec fn set_job(s: Seq<Job>, id: Seq<char>, j: Job) -> Seq<Job> {
    s.update(index_of(s, id), j)
}

/// Whether a caller holding `lease` may act on the job: it must exist, be
/// claimed, and carry that lease.
pub open spec fn lease_check(s: Seq<Job>, job_id: JobId, lease: LeaseId) -> Result<(), SpaceError> {
    if !has_job(s, job_id.0@) {
        Err(SpaceError::NotFound(job_id))
    } else {
        let j = job_of(s, job_id.0@);
        if j.status != JobStatus::Claimed {
            Err(SpaceError::NotClaimed(j.id))
        } else if !(j.lease_id matches Some(l) && l.0@ == lease.0@) {
            Err(SpaceError::LeaseInvalid)
        } else {
            Ok(())
        }
    }
}

pub open spec fn complete_spec(s: Seq<Job>, job_id: JobId, lease: LeaseId, result: String, now: i64) -> Seq<Job> {
    if lease_check(s, job_id, lease) is Ok {
        set_job(s, job_id.0@, completed_job(job_of(s, job_id.0@), result, now))
    } else {
        s
    }
}

pub open spec fn fail_spec(s: Seq<Job>, job_id: JobId, lease: LeaseId, error: String, now: i64) -> Seq<Job> {
    if lease_check(s, job_id, lease) is Ok {
        set_job(s, job_id.0@, failed_job(job_of(s, job_id.0@), error, now))
    } else {
        s
    }
}

pub open spec fn extend_spec(s: Seq<Job>, job_id: JobId, lease: LeaseId, until: i64) -> Seq<Job> {
    if lease_check(s, job_id, lease) is Ok {
        set_job(s, job_id.0@, extended_job(job_of(s, job_id.0@), until))
    } else {
        s
    }
}

/// Cancelling needs a pending job.
pub open spec fn cancel_check(s: Seq<Job>, job_id: JobId) -> Result<(), SpaceError> {
    if !has_job(s, job_id.0@) {
        Err(SpaceError::NotFound(job_id))
    } else if job_of(s, job_id.0@).status != JobStatus::Pending {
        Err(SpaceError::NotPending(job_id))
    } else {
        Ok(())
    }
}

pub open spec fn cancel_spec(s: Seq<Job>, job_id: JobId, now: i64) -> Seq<Job> {
    if cancel_check(s, job_id) is Ok {
        set_job(s, job_id.0@, cancelled_job(job_of(s, job_id.0@), now))
    } else {
        s
    }
}

/// Retrying needs a failed job.
pub open spec fn retry_allowed(s: Seq<Job>, id: Seq<char>) -> bool {
    has_job(s, id) && job_of(s, id).status == JobStatus::Failed
}

pub open spec fn retry_spec(s: Seq<Job>, id: Seq<char>) -> Seq<Job> {
    if retry_allowed(s, id) {
        set_job(s, id, retried_job(job_of(s, id)))
    } else {
        s
    }
}

/// A claimed job whose lease ended strictly before `now`.
pub open spec fn expirable(j: Job, now: i64) -> bool {
    j.status == JobStatus::Claimed && (j.lease_until matches Some(t) && now > t)
}

pub open spec fn expire_one(j: Job, now: i64) -> Job {
    if expirable(j, now) { expired_job(j) } else { j }
}

pub open spec fn expire_spec(s: Seq<Job>, now: i64) -> Seq<Job> {
    Seq::new(s.len(), |i: int| expire_one(s[i], now))
}

pub open spec fn count_expirable(s: Seq<Job>, now: i64) -> nat
    decreases s.len(),
{
    if s.len() == 0 {
        0
    } else {
        count_expirable(s.drop_last(), now) + if expirable(s.last(), now) { 1nat } else { 0nat }
    }
}

/// Claim during replay: the lease is already decided, the status is not checked.
pub open spec fn apply_claim_spec(s: Seq<Job>, id: Seq<char>, lease: LeaseId, lease_until: i64, started_at: i64, worker_id: Option<String>) -> Seq<Job> {
    if has_job(s, id) {
        set_job(s, id, claimed_job(job_of(s, id), lease, lease_until, started_at, worker_id))
    } else {
        s
    }
}

/// Expiry during replay: a claimed job goes back to pending.
pub open spec fn apply_expire_spec(s: Seq<Job>, id: Seq<char>) -> Seq<Job> {
    if has_job(s, id) && job_of(s, id).status == JobStatus::Claimed {
        set_job(s, id, expired_job(job_of(s, id)))
    } else {
        s
    }
}

// ----- claim order ------------------------------------------------------------

/// A pending job of the requested type.
pub open spec fn claimable(j: Job, job_type: Seq<char>) -> bool {
    j.status == JobStatus::Pending && j.job_type@ == job_type
}

/// First-in first-out order: by enqueue time, then by the bytes of the id.
pub open spec fn queued_before(a: Job, b: Job) -> bool {
    a.enqueued_at < b.enqueued_at || (a.enqueued_at == b.enqueued_at && bytes_lt(
        utf8(a.id.0@),
        utf8(b.id.0@),
    ))
}

/// Position `i` holds the oldest claimable job of the type.
pub open spec fn is_next_claim(s: Seq<Job>, job_type: Seq<char>, i: int) -> bool {
    &&& 0 <= i < s.len()
    &&& claimable(s[i], job_type)
    &&& forall|k: int|
        0 <= k < s.len() && k != i && #[trigger] claimable(s[k], job_type) ==> queued_before(s[i], s[k])
}

pub open spec fn has_claimable(s: Seq<Job>, job_type: Seq<char>) -> bool {
    exists|i: int| 0 <= i < s.len() && #[trigger] claimable(s[i], job_type)
}

pub open spec fn status_matches(j: Job, status: Option<JobStatus>) -> bool {
    match status {
        None => true,
        Some(st) => j.status == st,
    }
}

/// The jobs with the given status (all of them for `None`), in store order.
pub open spec fn select(s: Seq<Job>, status: Option<JobStatus>) -> Seq<Job> {
    s.filter(|j: Job| status_matches(j, status))
}

// ----- lemmas -----------------------------------------------------------------

pub proof fn lemma_index_of(s: Seq<Job>, i: int)
    requires
        ids_distinct(s),
        0 <= i < s.len(),
    ensures
        has_job(s, s[i].id.0@),
        index_of(s, s[i].id.0@) == i,
{
    assert(has_job(s, s[i].id.0@));
}

pub proof fn lemma_queued_before_asymmetric(a: Job, b: Job)
    ensures
        !(queued_before(a, b) && queued_before(b, a)),
{
    if queued_before(a, b) && queued_before(b, a) {
        lemma_bytes_lt_transitive(utf8(a.id.0@), utf8(b.id.0@), utf8(a.id.0@));
        lemma_bytes_lt_irreflexive(utf8(a.id.0@));
    }
}

pub proof fn lemma_queued_before_transitive(a: Job, b: Job, c: Job)
    requires
        queued_before(a, b),
        queued_before(b, c),
    ensures
        queued_before(a, c),
{
    if a.enqueued_at == b.enqueued_at && b.enqueued_at == c.enqueued_at {
        lemma_bytes_lt_transitive(utf8(a.id.0@), utf8(b.id.0@), utf8(c.id.0@));
    }
}

pub proof fn lemma_queued_before_total(a: Job, b: Job)
    requires
        a.id.0@ != b.id.0@,
    ensures
        queued_before(a, b) || queued_before(b, a),
{
    if utf8(a.id.0@) == utf8(b.id.0@) {
        lemma_utf8_injective(a.id.0@, b.id.0@);
    }
    if a.enqueued_at == b.enqueued_at {
        lemma_bytes_lt_total(utf8(a.id.0@), utf8(b.id.0@));
    }
}

/// Law: at most one position holds the next job to claim, so the job a claim
/// takes is determined by the store and the job type.
pub proof fn law_next_claim_is_unique(s: Seq<Job>, job_type: Seq<char>, i: int, k: int)
    requires
        is_next_claim(s, job_type, i),
        is_next_claim(s, job_type, k),
    ensures
        i == k,
{
    if i != k {
        assert(claimable(s[k], job_type));
        assert(claimable(s[i], job_type));
        lemma_queued_before_asymmetric(s[i], s[k]);
    }
}

/// Law: listing by status gives exactly the jobs of the store with that
/// status (every listed job has it, every job that has it is listed); listing
/// with no status gives the whole store.
pub proof fn law_list_by_status(s: Seq<Job>, status: Option<JobStatus>)
    ensures
        status is None ==> select(s, status) == s,
        forall|i: int| 0 <= i < select(s, status).len() ==> s.contains(#[trigger] select(s, status)[i]),
        forall|i: int| #![trigger select(s, status)[i]] 0 <= i < select(s, status).len()
            && status is Some ==> select(s, status)[i].status == status->0,
        forall|k: int| #![trigger s[k]] 0 <= k < s.len() && (status is None || s[k].status == status->0)
            ==> select(s, status).contains(s[k]),
{
    let pred = |j: Job| status_matches(j, status);
    assert forall|i: int| 0 <= i < select(s, status).len() implies s.contains(#[trigger] select(s, status)[i])
        && (status is Some ==> select(s, status)[i].status == status->0) by {
        s.lemma_filter_pred(pred, i);
        s.lemma_filter_contains_rev(pred, s.filter(pred)[i]);
    }
    assert forall|k: int| #![trigger s[k]] 0 <= k < s.len() && (status is None || s[k].status == status->0)
        implies select(s, status).contains(s[k]) by {
        s.lemma_filter_contains(pred, k);
    }
    if status is None {
        lemma_select_none(s);
    }
}

proof fn lemma_select_none(s: Seq<Job>)
    ensures
        select(s, None) == s,
    decreases s.len(),
{
    reveal_with_fuel(Seq::<_>::filter, 1);
    if s.len() > 0 {
        lemma_select_none(s.drop_last());
        assert(s.drop_last().push(s.last()) =~= s);
    }
}

pub(crate) proof fn lemma_update_keeps_ids(s: Seq<Job>, i: int, j: Job)
    requires
        ids_distinct(s),
        0 <= i < s.len(),
        j.id.0@ == s[i].id.0@,
    ensures
        ids_distinct(s.update(i, j)),
{
    let t = s.update(i, j);
    assert forall|a: int, b: int| 0 <= a < t.len() && 0 <= b < t.len() && a != b implies #[trigger] t[a].id.0@ != #[trigger] t[b].id.0@ by {
        assert(s[a].id.0@ != s[b].id.0@);
    }
}

pub(crate) proof fn lemma_push_keeps_ids(s: Seq<Job>, j: Job)
    requires
        ids_distinct(s),
        !has_job(s, j.id.0@),
    ensures
        ids_distinct(s.push(j)),
{
    let t = s.push(j);
    assert forall|a: int, b: int| 0 <= a < t.len() && 0 <= b < t.len() && a != b implies #[trigger] t[a].id.0@ != #[trigger] t[b].id.0@ by {
        if a < s.len() && b < s.len() {
            assert(s[a].id.0@ != s[b].id.0@);
        } else if a < s.len() {
            assert(t[a] == s[a]);
        } else {
            assert(t[b] == s[b]);
        }
    }
}

pub(crate) proof fn lemma_remove_keeps_ids(s: Seq<Job>, i: int)
    requires
        ids_distinct(s),
        0 <= i < s.len(),
    ensures
        ids_distinct(s.remove(i)),
{
    let t = s.remove(i);
    assert forall|a: int, b: int| 0 <= a < t.len() && 0 <= b < t.len() && a != b implies #[trigger] t[a].id.0@ != #[trigger] t[b].id.0@ by {
        let a2 = if a < i { a } else { a + 1 };
        let b2 = if b < i { b } else { b + 1 };
        assert(t[a] == s[a2]);
        assert(t[b] == s[b2]);
    }
}

// ---------------------------------------------------------------------------
// The store.
// ---------------------------------------------------------------------------

/// The in-memory job store. Every operation takes the current time from the
/// caller; the store itself reads no clock.
pub struct TupleSpace {
    jobs: Vec<Job>,
}

impl View for TupleSpace {
    type V = Seq<Job>;

    closed spec fn view(&self) -> Seq<Job> {
        self.jobs@
    }
}

/// Whether the job carries the given lease.
pub(crate) fn lease_matches(j: &Job, lease: &LeaseId) -> (r: bool)
    ensures
        r == (j.lease_id matches Some(l) && l.0@ == lease.0@),
{
    match &j.lease_id {
        Some(l) => l.0 == lease.0,
        None => false,
    }
}

fn earlier(a: &Job, b: &Job) -> (r: bool)
    ensures
        r == queued_before(*a, *b),
{
    a.enqueued_at < b.enqueued_at || (a.enqueued_at == b.enqueued_at && str_less(
        a.id.0.as_str(),
        b.id.0.as_str(),
    ))
}

impl TupleSpace {
    #[verifier::type_invariant]
    spec fn inv(&self) -> bool {
        ids_distinct(self.jobs@)
    }

    /// An empty store.
    pub fn new() -> (r: TupleSpace)
        ensures
            r@ == Seq::<Job>::empty(),
    {
        TupleSpace { jobs: Vec::new() }
    }

    /// Move the jobs out, leaving the store empty.
    fn take_jobs(&mut self) -> (r: Vec<Job>)
        ensures
            r@ == old(self)@,
            final(self)@ == Seq::<Job>::empty(),
            ids_distinct(r@),
    {
        proof { use_type_invariant(&*self); }
        let mut jobs: Vec<Job> = Vec::new();
        std::mem::swap(&mut jobs, &mut self.jobs);
        jobs
    }

    /// The position of the job with the given id, if there is one.
    fn find(&self, id: &String) -> (r: Option<usize>)
        ensures
            match r {
                Some(i) => i < self@.len() && has_job(self@, id@) && index_of(self@, id@) == i,
                None => !has_job(self@, id@),
            },
    {
        proof { use_type_invariant(self); }
        let n = self.jobs.len();
        let mut i: usize = 0;
        while i < n
            invariant
                n == self.jobs@.len(),
                i <= n,
                ids_distinct(self.jobs@),
                forall|k: int| 0 <= k < i ==> self.jobs@[k].id.0@ != id@,
            decreases n - i,
        {
            if self.jobs[i].id.0 == *id {
                proof { lemma_index_of(self.jobs@, i as int); }
                return Some(i);
            }
            i = i + 1;
        }
        None
    }

    /// Store `job`, replacing the job with the same id; a pending job becomes
    /// claimable.
    pub fn restore(&mut self, job: Job)
        ensures
            final(self)@ == put_job(old(self)@, job),
            ids_distinct(final(self)@),
    {
        proof { use_type_invariant(&*self); }
        match self.find(&job.id.0) {
            Some(i) => {
                proof { lemma_update_keeps_ids(self.jobs@, i as int, job); }
                let mut jobs = self.take_jobs();
                jobs.set(i, job);
                self.jobs = jobs;
            },
            None => {
                proof { lemma_push_keeps_ids(self.jobs@, job); }
                let mut jobs = self.take_jobs();
                jobs.push(job);
                self.jobs = jobs;
            },
        }
        proof { use_type_invariant(&*self); }
    }

    /// Enqueue a job under the given id (replacing a job with that id).
    pub fn enqueue_with_id(&mut self, id: JobId, job_type: String, args: String, max_retries: u8, now: i64)
        ensures
            final(self)@ == put_job(old(self)@, new_job(id, job_type, args, max_retries, now)),
            ids_distinct(final(self)@),
    {
        let job = Job::new(id, job_type, args, max_retries, now);
        self.restore(job);
    }

    /// Enqueue a new pending job under a fresh random id, which is returned.
    pub fn enqueue(&mut self, job_type: String, args: String, max_retries: u8, now: i64) -> (r: JobId)
        ensures
            final(self)@ == put_job(old(self)@, new_job(r, job_type, args, max_retries, now)),
            is_uuid_v4_text(r.0@),
            ids_distinct(final(self)@),
    {
        let id = JobId::new();
        let out = id.clone();
        self.enqueue_with_id(id, job_type, args, max_retries, now);
        out
    }

    /// Remove the job with the given id, if there is one.
    pub fn remove(&mut self, job_id: &JobId)
        ensures
            final(self)@ == remove_job(old(self)@, job_id.0@),
            ids_distinct(final(self)@),
    {
        proof { use_type_invariant(&*self); }
        match self.find(&job_id.0) {
            Some(i) => {
                proof { lemma_remove_keeps_ids(self.jobs@, i as int); }
                let mut jobs = self.take_jobs();
                jobs.remove(i);
                self.jobs = jobs;
            },
            None => {},
        }
        proof { use_type_invariant(&*self); }
    }

    /// Replace position `i` by `job`, which keeps the id there.
    fn replace_at(&mut self, i: usize, job: Job)
        requires
            i < old(self)@.len(),
            job.id.0@ == old(self)@[i as int].id.0@,
        ensures
            final(self)@ == old(self)@.update(i as int, job),
            ids_distinct(final(self)@),
    {
        proof {
            use_type_invariant(&*self);
            lemma_update_keeps_ids(self.jobs@, i as int, job);
        }
        let mut jobs = self.take_jobs();
        jobs.set(i, job);
        self.jobs = jobs;
        proof { use_type_invariant(&*self); }
    }

    /// Look up a job, checking that it is claimed under `lease`.
    fn checked_lease(&self, job_id: &JobId, lease: &LeaseId) -> (r: Result<usize, SpaceError>)
        ensures
            match r {
                Ok(i) => lease_check(self@, *job_id, *lease) is Ok && i < self@.len() && i == index_of(self@, job_id.0@),
                Err(e) => lease_check(self@, *job_id, *lease) == Err::<(), SpaceError>(e),
            },
    {
        match self.find(&job_id.0) {
            None => Err(SpaceError::NotFound(job_id.clone())),
            Some(i) => {
                let j = &self.jobs[i];
                if j.status != JobStatus::Claimed {
                    Err(SpaceError::NotClaimed(j.id.clone()))
                } else if !lease_matches(j, lease) {
                    Err(SpaceError::LeaseInvalid)
                } else {
                    Ok(i)
                }
            },
        }
    }

    /// Claim the oldest pending job of the type, stamping a new lease that
    /// ends at `now + lease_ttl`. Returns the job as claimed and the lease, or
    /// `None` (and no change) when no such job is pending.
    pub fn claim(&mut self, job_type: &str, lease_ttl: i64, worker_id: Option<String>, now: i64) -> (r: Option<(Job, LeaseId)>)
        ensures
            ids_distinct(final(self)@),
            match r {
                None => !has_claimable(old(self)@, job_type@) && final(self)@ == old(self)@,
                Some((job, lease)) => {
                    let i = index_of(old(self)@, job.id.0@);
                    &&& has_job(old(self)@, job.id.0@)
                    &&& is_next_claim(old(self)@, job_type@, i)
                    &&& job == claimed_job(old(self)@[i], lease, clamp_i64(now + lease_ttl), now, worker_id)
                    &&& final(self)@ == old(self)@.update(i, job)
                    &&& is_uuid_v4_text(lease.0@)
                },
            },
    {
        proof { use_type_invariant(&*self); }
        let n = self.jobs.len();
        let mut best: Option<usize> = None;
        let mut i: usize = 0;
        while i < n
            invariant
                n == self.jobs@.len(),
                i <= n,
                ids_distinct(self.jobs@),
                match best {
                    None => forall|k: int| 0 <= k < i ==> !#[trigger] claimable(self.jobs@[k], job_type@),
                    Some(b) => {
                        &&& b < i
                        &&& claimable(self.jobs@[b as int], job_type@)
                        &&& forall|k: int|
                            0 <= k < i && k != b && #[trigger] claimable(self.jobs@[k], job_type@)
                                ==> queued_before(self.jobs@[b as int], self.jobs@[k])
                    },
                },
            decreases n - i,
        {
            let j = &self.jobs[i];
            if j.status == JobStatus::Pending && str_equal(j.job_type.as_str(), job_type) {
                match best {
                    None => {
                        best = Some(i);
                    },
                    Some(b) => {
                        if earlier(&self.jobs[i], &self.jobs[b]) {
                            proof {
                                let s = self.jobs@;
                                assert forall|k: int|
                                    0 <= k < i + 1 && k != i && #[trigger] claimable(s[k], job_type@)
                                        implies queued_before(s[i as int], s[k]) by {
                                    if k != b {
                                        lemma_queued_before_transitive(s[i as int], s[b as int], s[k]);
                                    }
                                }
                            }
                            best = Some(i);
                        } else {
                            proof {
                                let s = self.jobs@;
                                assert(s[i as int].id.0@ != s[b as int].id.0@);
                                lemma_queued_before_total(s[i as int], s[b as int]);
                            }
                        }
                    },
                }
            }
            i = i + 1;
        }
        match best {
            None => {
                proof {
                    if has_claimable(self.jobs@, job_type@) {
                        let k = choose|k: int| 0 <= k < self.jobs@.len() && #[trigger] claimable(self.jobs@[k], job_type@);
                        assert(!claimable(self.jobs@[k], job_type@));
                    }
                }
                None
            },
            Some(b) => {
                proof { lemma_index_of(self.jobs@, b as int); }
                let lease = LeaseId::new();
                let mut job = self.jobs[b].clone();
                job.status = JobStatus::Claimed;
                job.started_at = Some(now);
                job.lease_until = Some(add_clamped(now, lease_ttl));
                job.lease_id = Some(lease.clone());
                job.worker_id = worker_id;
                let out = job.clone();
                self.replace_at(b, job);
                Some((out, lease))
            },
        }
    }

    /// Mark a claimed job done, recording its result.
    pub fn complete(&mut self, job_id: &JobId, lease_id: &LeaseId, result: String, now: i64) -> (r: Result<(), SpaceError>)
        ensures
            r == lease_check(old(self)@, *job_id, *lease_id),
            final(self)@ == complete_spec(old(self)@, *job_id, *lease_id, result, now),
            ids_distinct(final(self)@),
    {
        proof { use_type_invariant(&*self); }
        let i = match self.checked_lease(job_id, lease_id) {
            Ok(i) => i,
            Err(e) => return Err(e),
        };
        let mut job = self.jobs[i].clone();
        job.status = JobStatus::Done;
        job.result = Some(result);
        job.finished_at = Some(now);
        job.lease_until = None;
        job.lease_id = None;
        self.replace_at(i, job);
        Ok(())
    }

    /// Record a failed attempt: the job is re-queued while retries remain,
    /// otherwise it fails for good with `error`.
    pub fn fail(&mut self, job_id: &JobId, lease_id: &LeaseId, error: String, now: i64) -> (r: Result<(), SpaceError>)
        ensures
            r == lease_check(old(self)@, *job_id, *lease_id),
            final(self)@ == fail_spec(old(self)@, *job_id, *lease_id, error, now),
            ids_distinct(final(self)@),
    {
        proof { use_type_invariant(&*self); }
        let i = match self.checked_lease(job_id, lease_id) {
            Ok(i) => i,
            Err(e) => return Err(e),
        };
        let mut job = self.jobs[i].clone();
        job.retries = job.retries.wrapping_add(1);
        job.lease_until = None;
        job.lease_id = None;
        if job.retries < job.max_retries {
            job.status = JobStatus::Pending;
            job.started_at = None;
        } else {
            job.status = JobStatus::Failed;
            job.error = Some(error);
            job.finished_at = Some(now);
        }
        self.replace_at(i, job);
        Ok(())
    }

    /// Cancel a pending job.
    pub fn cancel(&mut self, job_id: &JobId, now: i64) -> (r: Result<(), SpaceError>)
        ensures
            r == cancel_check(old(self)@, *job_id),
            final(self)@ == cancel_spec(old(self)@, *job_id, now),
            ids_distinct(final(self)@),
    {
        proof { use_type_invariant(&*self); }
        let i = match self.find(&job_id.0) {
            Some(i) => i,
            None => return Err(SpaceError::NotFound(job_id.clone())),
        };
        if self.jobs[i].status != JobStatus::Pending {
            return Err(SpaceError::NotPending(job_id.clone()));
        }
        let mut job = self.jobs[i].clone();
        job.status = JobStatus::Cancelled;
        job.finished_at = Some(now);
        self.replace_at(i, job);
        Ok(())
    }

    /// Reset a failed job to pending with no retries counted. `now` is not used.
    pub fn retry(&mut self, job_id: &JobId, now: i64) -> (r: Result<(), SpaceError>)
        ensures
            final(self)@ == retry_spec(old(self)@, job_id.0@),
            ids_distinct(final(self)@),
            match r {
                Ok(()) => retry_allowed(old(self)@, job_id.0@),
                Err(SpaceError::NotFound(id)) => !has_job(old(self)@, job_id.0@) && id == *job_id,
                Err(SpaceError::InvalidTransition { from, to }) => {
                    &&& has_job(old(self)@, job_id.0@)
                    &&& job_of(old(self)@, job_id.0@).status != JobStatus::Failed
                    &&& from@ == status_name(job_of(old(self)@, job_id.0@).status)
                    &&& to@ == "pending"@
                },
                Err(_) => false,
            },
    {
        proof { use_type_invariant(&*self); }
        let _ = now;
        let i = match self.find(&job_id.0) {
            Some(i) => i,
            None => return Err(SpaceError::NotFound(job_id.clone())),
        };
        if self.jobs[i].status != JobStatus::Failed {
            return Err(SpaceError::InvalidTransition {
                from: self.jobs[i].status.as_str().to_owned(),
                to: "pending".to_owned(),
            });
        }
        let mut job = self.jobs[i].clone();
        job.status = JobStatus::Pending;
        job.error = None;
        job.retries = 0;
        job.finished_at = None;
        self.replace_at(i, job);
        Ok(())
    }

    /// Move the lease end of a claimed job to `new_lease_until`.
    pub fn extend_lease(&mut self, job_id: &JobId, lease_id: &LeaseId, new_lease_until: i64) -> (r: Result<(), SpaceError>)
        ensures
            r == lease_check(old(self)@, *job_id, *lease_id),
            final(self)@ == extend_spec(old(self)@, *job_id, *lease_id, new_lease_until),
            ids_distinct(final(self)@),
    {
        proof { use_type_invariant(&*self); }
        let i = match self.checked_lease(job_id, lease_id) {
            Ok(i) => i,
            Err(e) => return Err(e),
        };
        let mut job = self.jobs[i].clone();
        job.lease_until = Some(new_lease_until);
        self.replace_at(i, job);
        Ok(())
    }

    /// Return every claimed job whose lease ended before `now` to pending.
    /// Returns how many were returned.
    pub fn expire_leases(&mut self, now: i64) -> (r: usize)
        ensures
            final(self)@ == expire_spec(old(self)@, now),
            r == count_expirable(old(self)@, now),
            ids_distinct(final(self)@),
    {
        proof { use_type_invariant(&*self); }
        let ghost start = self.jobs@;
        let n = self.jobs.len();
        let mut count: usize = 0;
        let mut i: usize = 0;
        while i < n
            invariant
                n == start.len(),
                self.jobs@.len() == n,
                i <= n,
                count <= i,
                count == count_expirable(start.take(i as int), now),
                forall|k: int| 0 <= k < i ==> #[trigger] self.jobs@[k] == expire_one(start[k], now),
                forall|k: int| i <= k < n ==> #[trigger] self.jobs@[k] == start[k],
                ids_distinct(self.jobs@),
                ids_distinct(start),
            decreases n - i,
        {
            assert(start.take(i + 1).drop_last() =~= start.take(i as int));
            let expire = match (self.jobs[i].status, self.jobs[i].lease_until) {
                (JobStatus::Claimed, Some(t)) => now > t,
                _ => false,
            };
            if expire {
                let mut job = self.jobs[i].clone();
                job.status = JobStatus::Pending;
                job.started_at = None;
                job.lease_until = None;
                job.lease_id = None;
                self.replace_at(i, job);
                count = count + 1;
            }
            i = i + 1;
        }
        assert(start.take(n as int) =~= start);
        assert(self.jobs@ =~= expire_spec(start, now));
        count
    }

    /// The job with the given id, if any.
    pub fn get(&self, job_id: &JobId) -> (r: Option<Job>)
        ensures
            match r {
                Some(j) => has_job(self@, job_id.0@) && j == job_of(self@, job_id.0@),
                None => !has_job(self@, job_id.0@),
            },
    {
        match self.find(&job_id.0) {
            Some(i) => Some(self.jobs[i].clone()),
            None => None,
        }
    }

    /// The jobs with the given status, or all jobs for `None`, in store order.
    pub fn list(&self, status: Option<JobStatus>) -> (r: Vec<Job>)
        ensures
            r@ == select(self@, status),
            status is None ==> r@ == self@,
            forall|i: int| 0 <= i < r@.len() ==> self@.contains(#[trigger] r@[i]),
            forall|i: int| 0 <= i < r@.len() && status is Some ==> #[trigger] r@[i].status == status->0,
            forall|k: int| #![trigger self@[k]] 0 <= k < self@.len() && (status is None || self@[k].status == status->0)
                ==> r@.contains(self@[k]),
            ids_distinct(self@),
    {
        proof {
            use_type_invariant(self);
            law_list_by_status(self@, status);
        }
        let n = self.jobs.len();
        let mut out: Vec<Job> = Vec::new();
        let mut i: usize = 0;
        while i < n
            invariant
                n == self.jobs@.len(),
                i <= n,
                out@ == select(self.jobs@.take(i as int), status),
            decreases n - i,
        {
            assert(self.jobs@.take(i + 1).drop_last() =~= self.jobs@.take(i as int));
            assert(self.jobs@.take(i + 1).last() == self.jobs@[i as int]);
            let keep = match status {
                None => true,
                Some(st) => self.jobs[i].status == st,
            };
            assert(keep == status_matches(self.jobs@[i as int], status));
            proof { reveal_with_fuel(Seq::<_>::filter, 1); }
            if keep {
                out.push(self.jobs[i].clone());
            }
            i = i + 1;
        }
        assert(self.jobs@.take(n as int) =~= self.jobs@);
        out
    }

    /// How many jobs the store holds.
    pub fn len(&self) -> (r: usize)
        ensures
            r == self@.len(),
    {
        self.jobs.len()
    }

    /// Whether the store holds no job.
    pub fn is_empty(&self) -> (r: bool)
        ensures
            r == (self@.len() == 0),
    {
        self.jobs.len() == 0
    }

    /// Apply a claim whose lease was decided earlier (replay): the job is
    /// marked claimed whatever its status.
    pub fn apply_claim(&mut self, job_id: JobId, lease_id: LeaseId, lease_until: i64, started_at: i64, worker_id: Option<String>)
        ensures
            final(self)@ == apply_claim_spec(old(self)@, job_id.0@, lease_id, lease_until, started_at, worker_id),
            ids_distinct(final(self)@),
    {
        proof { use_type_invariant(&*self); }
        match self.find(&job_id.0) {
            Some(i) => {
                let mut job = self.jobs[i].clone();
                job.status = JobStatus::Claimed;
                job.started_at = Some(started_at);
                job.lease_until = Some(lease_until);
                job.lease_id = Some(lease_id);
                job.worker_id = worker_id;
                self.replace_at(i, job);
            },
            None => {},
        }
    }

    /// Apply an expiry to one job (replay): a claimed job goes back to pending.
    pub fn apply_expire(&mut self, job_id: JobId)
        ensures
            final(self)@ == apply_expire_spec(old(self)@, job_id.0@),
            ids_distinct(final(self)@),
    {
        proof { use_type_invariant(&*self); }
        match self.find(&job_id.0) {
            Some(i) => {
                if self.jobs[i].status == JobStatus::Claimed {
                    let mut job = self.jobs[i].clone();
                    job.status = JobStatus::Pending;
                    job.started_at = None;
                    job.lease_until = None;
                    job.lease_id = None;
                    self.replace_at(i, job);
                }
            },
            None => {},
        }
    }
}

impl Default for TupleSpace {
    fn default() -> (r: Self)
        ensures
            r@ == Seq::<Job>::empty(),
    {
        Self::new()
    }
}

} // verus!
