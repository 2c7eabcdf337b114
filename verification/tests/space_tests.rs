use viscacha::space::TupleSpace;
use viscacha::types::{JobStatus, LeaseId};
use viscacha::error::SpaceError;

// Times are nanoseconds since the epoch.
const SEC: i64 = 1_000_000_000;

fn now() -> i64 {
    1_000_000 * SEC
}

fn later(secs: i64) -> i64 {
    now() + secs * SEC
}

fn arg(json: &str, key: &str) -> serde_json::Value {
    let v: serde_json::Value = serde_json::from_str(json).unwrap();
    v[key].clone()
}

// ── enqueue ───────────────────────────────────────────────────────────────────

#[test]
fn enqueue_returns_unique_ids() {
    let mut space = TupleSpace::new();
    let a = space.enqueue("send_email".into(), "{}".into(), 3, now());
    let b = space.enqueue("send_email".into(), "{}".into(), 3, now());
    assert_ne!(a, b);
}

#[test]
fn enqueued_job_is_pending() {
    let mut space = TupleSpace::new();
    let id = space.enqueue("resize_image".into(), r#"{"w":800}"#.into(), 3, now());
    let job = space.get(&id).unwrap();
    assert_eq!(job.status, JobStatus::Pending);
    assert_eq!(job.job_type, "resize_image");
    assert_eq!(arg(&job.args, "w"), 800);
}

// ── claim ─────────────────────────────────────────────────────────────────────

#[test]
fn claim_transitions_to_claimed() {
    let mut space = TupleSpace::new();
    let id = space.enqueue("ocr".into(), "{}".into(), 3, now());
    let (job, _lease) = space.claim("ocr", 30 * SEC, None, now()).unwrap();
    assert_eq!(job.id, id);
    assert_eq!(job.status, JobStatus::Claimed);
    assert!(job.lease_until.is_some());
    assert!(job.started_at.is_some());
}

#[test]
fn claim_returns_none_when_queue_empty() {
    let mut space = TupleSpace::new();
    assert!(space.claim("ocr", 30 * SEC, None, now()).is_none());
}

#[test]
fn claim_only_matches_correct_job_type() {
    let mut space = TupleSpace::new();
    space.enqueue("send_email".into(), "{}".into(), 3, now());
    assert!(space.claim("ocr", 30 * SEC, None, now()).is_none());
}

// ── complete ──────────────────────────────────────────────────────────────────

#[test]
fn complete_marks_job_done() {
    let mut space = TupleSpace::new();
    let id = space.enqueue("ocr".into(), "{}".into(), 3, now());
    let (job, lease) = space.claim("ocr", 30 * SEC, None, now()).unwrap();
    space.complete(&job.id, &lease, r#"{"text":"hello"}"#.into(), later(1)).unwrap();
    let done = space.get(&id).unwrap();
    assert_eq!(done.status, JobStatus::Done);
    assert_eq!(arg(&done.result.unwrap(), "text"), "hello");
    assert!(done.finished_at.is_some());
    assert!(done.lease_until.is_none());
}

#[test]
fn complete_rejects_wrong_lease() {
    let mut space = TupleSpace::new();
    let id = space.enqueue("ocr".into(), "{}".into(), 3, now());
    let (job, _real_lease) = space.claim("ocr", 30 * SEC, None, now()).unwrap();
    let fake_lease = LeaseId::new();
    let err = space.complete(&job.id, &fake_lease, "null".into(), later(1)).unwrap_err();
    assert!(matches!(err, SpaceError::LeaseInvalid));
    // job must still be claimed — no state change on bad lease
    assert_eq!(space.get(&id).unwrap().status, JobStatus::Claimed);
}

// ── fail / retry ──────────────────────────────────────────────────────────────

#[test]
fn fail_requeues_when_retries_remain() {
    let mut space = TupleSpace::new();
    space.enqueue("ocr".into(), "{}".into(), 3, now());
    let (job, lease) = space.claim("ocr", 30 * SEC, None, now()).unwrap();
    space.fail(&job.id, &lease, "timeout".into(), later(1)).unwrap();
    let requeued = space.get(&job.id).unwrap();
    assert_eq!(requeued.status, JobStatus::Pending);
    assert_eq!(requeued.retries, 1);
    assert!(requeued.lease_until.is_none());
}

#[test]
fn fail_marks_failed_when_retries_exhausted() {
    let mut space = TupleSpace::new();
    space.enqueue("ocr".into(), "{}".into(), 1, now()); // max_retries = 1
    let (job, lease) = space.claim("ocr", 30 * SEC, None, now()).unwrap();
    space.fail(&job.id, &lease, "boom".into(), later(1)).unwrap();
    let failed = space.get(&job.id).unwrap();
    assert_eq!(failed.status, JobStatus::Failed);
    assert_eq!(failed.error.as_deref(), Some("boom"));
    assert!(failed.finished_at.is_some());
}

// ── cancel ────────────────────────────────────────────────────────────────────

#[test]
fn space_tests_cancel_pending_job() {
    let mut space = TupleSpace::new();
    let id = space.enqueue("ocr".into(), "{}".into(), 3, now());
    space.cancel(&id, later(1)).unwrap();
    assert_eq!(space.get(&id).unwrap().status, JobStatus::Cancelled);
}

#[test]
fn cancel_non_pending_job_errors() {
    let mut space = TupleSpace::new();
    let id = space.enqueue("ocr".into(), "{}".into(), 3, now());
    let (job, lease) = space.claim("ocr", 30 * SEC, None, now()).unwrap();
    space.complete(&job.id, &lease, "null".into(), later(1)).unwrap();
    let err = space.cancel(&id, later(2)).unwrap_err();
    assert!(matches!(err, SpaceError::NotPending(_)));
}

// ── lease expiry ──────────────────────────────────────────────────────────────

#[test]
fn expired_lease_returns_job_to_pending() {
    let mut space = TupleSpace::new();
    let id = space.enqueue("ocr".into(), "{}".into(), 3, now());
    let (_job, _lease) = space.claim("ocr", 10 * SEC, None, now()).unwrap(); // expires at now+10s
    let expired = space.expire_leases(later(11)); // advance past expiry
    assert_eq!(expired, 1);
    assert_eq!(space.get(&id).unwrap().status, JobStatus::Pending);
}

#[test]
fn non_expired_lease_not_reaped() {
    let mut space = TupleSpace::new();
    space.enqueue("ocr".into(), "{}".into(), 3, now());
    space.claim("ocr", 30 * SEC, None, now()).unwrap();
    let expired = space.expire_leases(later(5)); // only 5s in, lease TTL is 30s
    assert_eq!(expired, 0);
}

// ── list ──────────────────────────────────────────────────────────────────────

#[test]
fn space_tests_list_filters_by_status() {
    let mut space = TupleSpace::new();
    space.enqueue("ocr".into(), "{}".into(), 3, now());
    space.enqueue("ocr".into(), "{}".into(), 3, now());
    let (job, lease) = space.claim("ocr", 30 * SEC, None, now()).unwrap();
    space.complete(&job.id, &lease, "null".into(), later(1)).unwrap();

    assert_eq!(space.list(Some(JobStatus::Pending)).len(), 1);
    assert_eq!(space.list(Some(JobStatus::Done)).len(), 1);
    assert_eq!(space.list(None).len(), 2);
}
