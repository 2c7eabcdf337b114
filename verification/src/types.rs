use vstd::prelude::*;

verus! {

/// The lifecycle state of a job.
#[derive(Debug, Clone, Copy, PartialEq, Eq, Structural)]
pub enum JobStatus {
    Pending,
    Claimed,
    Done,
    Failed,
    Cancelled,
}

/// The lower-case name of a status, as shown to clients.
pub open spec fn status_name(s: JobStatus) -> Seq<char> {
    match s {
        JobStatus::Pending => "pending"@,
        JobStatus::Claimed => "claimed"@,
        JobStatus::Done => "done"@,
        JobStatus::Failed => "failed"@,
        JobStatus::Cancelled => "cancelled"@,
    }
}

impl JobStatus {
    /// The lower-case name of the status.
    pub fn as_str(&self) -> (r: &'static str)
        ensures
            r@ == status_name(*self),
    {
        match self {
            JobStatus::Pending => "pending",
            JobStatus::Claimed => "claimed",
            JobStatus::Done => "done",
            JobStatus::Failed => "failed",
            JobStatus::Cancelled => "cancelled",
        }
    }
}

/// A lowercase hexadecimal digit.
pub open spec fn is_lower_hex(c: char) -> bool {
    ('0' <= c && c <= '9') || ('a' <= c && c <= 'f')
}

/// The hyphenated text of a version 4 UUID: 36 characters, hyphens at
/// positions 8, 13, 18 and 23, lowercase hex digits elsewhere, the version
/// digit `4` at position 14 and one of `8`, `9`, `a`, `b` at position 19.
pub open spec fn is_uuid_v4_text(s: Seq<char>) -> bool {
    &&& s.len() == 36
    &&& forall|i: int| 0 <= i < 36 ==> if i == 8 || i == 13 || i == 18 || i == 23 {
        #[trigger] s[i] == '-'
    } else {
        is_lower_hex(s[i])
    }
    &&& s[14] == '4'
    &&& (s[19] == '8' || s[19] == '9' || s[19] == 'a' || s[19] == 'b')
}

/// Calls `uuid::Uuid::new_v4` and renders the result with `to_string`.
/// The value is random, so nothing ties it to earlier calls. `new_v4` sets the
/// version nibble to 4 and the variant bits to `10`; `to_string` writes the
/// hyphenated lowercase form.
#[verifier::external_body]
pub(crate) fn random_uuid_string() -> (r: String)
    ensures
        is_uuid_v4_text(r@),
{
    uuid::Uuid::new_v4().to_string()
}

/// Identifier of a job.
#[derive(Debug, PartialEq, Eq, Hash)]
pub struct JobId(pub String);

impl Clone for JobId {
    fn clone(&self) -> (r: Self)
        ensures
            r == *self,
    {
        JobId(self.0.clone())
    }
}

impl JobId {
    /// A new random job identifier.
    pub fn new() -> (r: Self)
        ensures
            is_uuid_v4_text(r.0@),
    {
        JobId(random_uuid_string())
    }
}

/// Identifier of one lease on a claimed job.
#[derive(Debug, PartialEq, Eq, Hash)]
pub struct LeaseId(pub String);

impl Clone for LeaseId {
    fn clone(&self) -> (r: Self)
        ensures
            r == *self,
    {
        LeaseId(self.0.clone())
    }
}

impl LeaseId {
    /// A new random lease identifier.
    pub fn new() -> (r: Self)
        ensures
            is_uuid_v4_text(r.0@),
    {
        LeaseId(random_uuid_string())
    }
}

impl Default for LeaseId {
    fn default() -> (r: Self)
        ensures
            is_uuid_v4_text(r.0@),
    {
        Self::new()
    }
}

/// One job and everything the queue records about it.
///
/// Times are integer nanoseconds since the Unix epoch; `args` and `result`
/// are JSON documents kept as text.
#[derive(Debug, PartialEq, Eq)]
pub struct Job {
    pub id: JobId,
    pub job_type: String,
    pub args: String,
    pub status: JobStatus,
    pub retries: u8,
    pub max_retries: u8,
    pub enqueued_at: i64,
    pub started_at: Option<i64>,
    pub finished_at: Option<i64>,
    pub result: Option<String>,
    pub error: Option<String>,
    /// Set while the job is claimed.
    pub lease_until: Option<i64>,
    pub lease_id: Option<LeaseId>,
    pub worker_id: Option<String>,
}

pub(crate) fn clone_opt_string(o: &Option<String>) -> (r: Option<String>)
    ensures
        r == *o,
{
    match o {
        Some(s) => Some(s.clone()),
        None => None,
    }
}

impl Clone for Job {
    fn clone(&self) -> (r: Self)
        ensures
            r == *self,
    {
        Job {
            id: self.id.clone(),
            job_type: self.job_type.clone(),
            args: self.args.clone(),
            status: self.status,
            retries: self.retries,
            max_retries: self.max_retries,
            enqueued_at: self.enqueued_at,
            started_at: self.started_at,
            finished_at: self.finished_at,
            result: clone_opt_string(&self.result),
            error: clone_opt_string(&self.error),
            lease_until: self.lease_until,
            lease_id: match &self.lease_id {
                Some(l) => Some(l.clone()),
                None => None,
            },
            worker_id: clone_opt_string(&self.worker_id),
        }
    }
}

/// A freshly enqueued job.
pub open spec fn new_job(id: JobId, job_type: String, args: String, max_retries: u8, now: i64) -> Job {
    Job {
        id,
        job_type,
        args,
        status: JobStatus::Pending,
        retries: 0,
        max_retries,
        enqueued_at: now,
        started_at: None,
        finished_at: None,
        result: None,
        error: None,
        lease_until: None,
        lease_id: None,
        worker_id: None,
    }
}

impl Job {
    /// A pending job with no retries, enqueued at `now`.
    pub fn new(id: JobId, job_type: String, args: String, max_retries: u8, now: i64) -> (r: Job)
        ensures
            r == new_job(id, job_type, args, max_retries, now),
    {
        Job {
            id,
            job_type,
            args,
            status: JobStatus::Pending,
            retries: 0,
            max_retries,
            enqueued_at: now,
            started_at: None,
            finished_at: None,
            result: None,
            error: None,
            lease_until: None,
            lease_id: None,
            worker_id: None,
        }
    }
}

} // verus!
