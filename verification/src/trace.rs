//! The timeline of one job: when it was enqueued, claimed and finished.

use vstd::prelude::*;
use crate::clock::{clamp_i64, sub_clamped, whole_ms, ns_to_ms};
use crate::types::{Job, JobStatus, clone_opt_string};

verus! {

/// One step of a job's timeline. Times are nanoseconds since the epoch;
/// offsets and run times are whole milliseconds, rounded toward zero.
#[derive(Debug)]
pub enum TraceEntry {
    Enqueued { at: i64 },
    Claimed { at: i64, offset_ms: i64, worker_id: Option<String> },
    Finished {
        status: JobStatus,
        at: i64,
        offset_ms: i64,
        exec_ms: i64,
        result: Option<String>,
        error: Option<String>,
    },
}

/// The name a finish step is shown under.
pub open spec fn finish_name(st: JobStatus) -> Seq<char> {
    match st {
        JobStatus::Done => "done"@,
        JobStatus::Failed => "failed"@,
        JobStatus::Cancelled => "cancelled"@,
        _ => "finished"@,
    }
}

/// The name a finish step is shown under: the terminal status, or
/// `finished` for a job that is not in one.
pub fn finish_event_name(st: JobStatus) -> (r: &'static str)
    ensures
        r@ == finish_name(st),
{
    match st {
        JobStatus::Done => "done",
        JobStatus::Failed => "failed",
        JobStatus::Cancelled => "cancelled",
        _ => "finished",
    }
}

/// The timeline of a job: it was enqueued; it was claimed if it has a start
/// time; it finished if it has a finish time (with the time it ran, or 0 when
/// it never started).
pub open spec fn timeline(j: Job) -> Seq<TraceEntry> {
    let t0 = j.enqueued_at;
    let first = seq![TraceEntry::Enqueued { at: t0 }];
    let claimed = match j.started_at {
        Some(s) => seq![TraceEntry::Claimed { at: s, offset_ms: whole_ms(clamp_i64(s - t0) as int) as i64, worker_id: j.worker_id }],
        None => Seq::empty(),
    };
    let finished = match j.finished_at {
        Some(f) => seq![TraceEntry::Finished {
            status: j.status,
            at: f,
            offset_ms: whole_ms(clamp_i64(f - t0) as int) as i64,
            exec_ms: match j.started_at {
                Some(s) => whole_ms(clamp_i64(f - s) as int) as i64,
                None => 0,
            },
            result: j.result,
            error: j.error,
        }],
        None => Seq::empty(),
    };
    first + claimed + finished
}

/// Law: a job's timeline starts with its enqueue; has a claim step exactly
/// when the job has started, at its start time and with its worker; and ends
/// with a finish step exactly when the job has finished, at its finish time,
/// with its status, result and error, and with no run time if it never
/// started.
pub proof fn law_timeline_follows_the_job(j: Job)
    ensures
        timeline(j).len() == 1 + (if j.started_at is Some { 1int } else { 0int })
            + (if j.finished_at is Some { 1int } else { 0int }),
        timeline(j)[0] == (TraceEntry::Enqueued { at: j.enqueued_at }),
        j.started_at is Some ==> (timeline(j)[1] matches TraceEntry::Claimed { at, worker_id, .. }
            && at == j.started_at->0 && worker_id == j.worker_id),
        j.finished_at is Some ==> (timeline(j).last() matches TraceEntry::Finished { status, at, exec_ms, result, error, .. }
            && status == j.status && at == j.finished_at->0 && result == j.result && error == j.error
            && (j.started_at is None ==> exec_ms == 0)),
        j.finished_at is None ==> !(timeline(j).last() is Finished),
{
}

/// The timeline of a job, in order.
pub fn trace_timeline(job: &Job) -> (r: Vec<TraceEntry>)
    ensures
        r@ == timeline(*job),
        r@[0] == (TraceEntry::Enqueued { at: job.enqueued_at }),
        job.started_at is Some ==> (r@[1] matches TraceEntry::Claimed { at, worker_id, .. }
            && at == job.started_at->0 && worker_id == job.worker_id),
        job.finished_at is Some ==> (r@.last() matches TraceEntry::Finished { status, at, result, error, .. }
            && status == job.status && at == job.finished_at->0 && result == job.result && error == job.error),
{
    proof { law_timeline_follows_the_job(*job); }
    let t0 = job.enqueued_at;
    let mut out: Vec<TraceEntry> = Vec::new();
    out.push(TraceEntry::Enqueued { at: t0 });
    if let Some(s) = job.started_at {
        out.push(TraceEntry::Claimed {
            at: s,
            offset_ms: ns_to_ms(sub_clamped(s, t0)),
            worker_id: clone_opt_string(&job.worker_id),
        });
    }
    if let Some(f) = job.finished_at {
        let exec_ms = match job.started_at {
            Some(s) => ns_to_ms(sub_clamped(f, s)),
            None => 0,
        };
        out.push(TraceEntry::Finished {
            status: job.status,
            at: f,
            offset_ms: ns_to_ms(sub_clamped(f, t0)),
            exec_ms,
            result: clone_opt_string(&job.result),
            error: clone_opt_string(&job.error),
        });
    }
    assert(out@ =~= timeline(*job));
    out
}

} // verus!
