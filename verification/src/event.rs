use vstd::prelude::*;
use crate::types::clone_opt_string;

verus! {

/// One mutation of the job store, as recorded in the event log. The log is
/// the durable record; the in-memory store is what replaying it gives.
#[derive(Debug, PartialEq, Eq)]
pub enum EventOp {
    Enqueue { job_id: String, job_type: String, args: String, max_retries: u8 },
    Claim { job_id: String, lease_id: String, lease_until: i64, worker_id: Option<String> },
    Complete { job_id: String, lease_id: String, result: String },
    Fail { job_id: String, lease_id: String, error: String },
    Cancel { job_id: String },
    Expire { job_id: String },
    Purge { job_id: String },
    Retry { job_id: String },
}

/// A logged event with its position in the log and the time it was logged
/// (nanoseconds since the Unix epoch).
#[derive(Debug, PartialEq, Eq)]
pub struct StorageEvent {
    pub seq: i64,
    pub timestamp: i64,
    pub op: EventOp,
}

impl Clone for EventOp {
    fn clone(&self) -> (r: Self)
        ensures
            r == *self,
    {
        match self {
            EventOp::Enqueue { job_id, job_type, args, max_retries } => EventOp::Enqueue {
                job_id: job_id.clone(),
                job_type: job_type.clone(),
                args: args.clone(),
                max_retries: *max_retries,
            },
            EventOp::Claim { job_id, lease_id, lease_until, worker_id } => EventOp::Claim {
                job_id: job_id.clone(),
                lease_id: lease_id.clone(),
                lease_until: *lease_until,
                worker_id: clone_opt_string(worker_id),
            },
            EventOp::Complete { job_id, lease_id, result } => EventOp::Complete {
                job_id: job_id.clone(),
                lease_id: lease_id.clone(),
                result: result.clone(),
            },
            EventOp::Fail { job_id, lease_id, error } => EventOp::Fail {
                job_id: job_id.clone(),
                lease_id: lease_id.clone(),
                error: error.clone(),
            },
            EventOp::Cancel { job_id } => EventOp::Cancel { job_id: job_id.clone() },
            EventOp::Expire { job_id } => EventOp::Expire { job_id: job_id.clone() },
            EventOp::Purge { job_id } => EventOp::Purge { job_id: job_id.clone() },
            EventOp::Retry { job_id } => EventOp::Retry { job_id: job_id.clone() },
        }
    }
}

impl Clone for StorageEvent {
    fn clone(&self) -> (r: Self)
        ensures
            r == *self,
    {
        StorageEvent { seq: self.seq, timestamp: self.timestamp, op: self.op.clone() }
    }
}

} // verus!
