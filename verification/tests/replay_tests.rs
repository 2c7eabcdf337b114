use viscacha::clock::add_clamped;
use viscacha::event::{EventOp, StorageEvent};
use viscacha::replay::{apply, replay};
use viscacha::space::TupleSpace;
use viscacha::types::{JobId, JobStatus, LeaseId};

const T0: i64 = 1_000_000;

fn ev(seq: i64, timestamp: i64, op: EventOp) -> StorageEvent {
    StorageEvent { seq, timestamp, op }
}

fn enqueue_op(id: &str, job_type: &str, max_retries: u8) -> EventOp {
    EventOp::Enqueue { job_id: id.into(), job_type: job_type.into(), args: "{}".into(), max_retries }
}

#[test]
fn replay_of_enqueue_and_cancel_matches_live_store() {
    let mut live = TupleSpace::new();
    live.enqueue_with_id(JobId("job-1".into()), "ocr".into(), "{}".into(), 3, T0);
    live.cancel(&JobId("job-1".into()), T0 + 1000).unwrap();

    let events = vec![ev(1, T0, enqueue_op("job-1", "ocr", 3)), ev(2, T0 + 1000, EventOp::Cancel { job_id: "job-1".into() })];
    let rebuilt = replay(None, events);
    assert_eq!(rebuilt.list(None), live.list(None));
    assert_eq!(rebuilt.get(&JobId("job-1".into())).unwrap().status, JobStatus::Cancelled);
}

#[test]
fn replay_of_claim_and_complete_matches_live_store() {
    // The durable store logs exactly these events around a claim and completion.
    let mut live = TupleSpace::new();
    let mut log: Vec<StorageEvent> = Vec::new();
    live.enqueue_with_id(JobId("j".into()), "ocr".into(), r#"{"doc":"x.pdf"}"#.into(), 3, T0);
    log.push(ev(1, T0, EventOp::Enqueue { job_id: "j".into(), job_type: "ocr".into(), args: r#"{"doc":"x.pdf"}"#.into(), max_retries: 3 }));
    let (job, lease) = live.claim("ocr", 30_000, Some("w1".into()), T0 + 5).unwrap();
    log.push(ev(2, T0 + 5, EventOp::Claim {
        job_id: job.id.0.clone(),
        lease_id: lease.0.clone(),
        lease_until: add_clamped(T0 + 5, 30_000),
        worker_id: Some("w1".into()),
    }));
    live.complete(&job.id, &lease, r#"{"text":"hello"}"#.into(), T0 + 9).unwrap();
    log.push(ev(3, T0 + 9, EventOp::Complete { job_id: "j".into(), lease_id: lease.0.clone(), result: r#"{"text":"hello"}"#.into() }));

    let rebuilt = replay(None, log);
    assert_eq!(rebuilt.list(None), live.list(None));
    let done = rebuilt.get(&JobId("j".into())).unwrap();
    assert_eq!(done.status, JobStatus::Done);
    assert_eq!(done.result.as_deref(), Some(r#"{"text":"hello"}"#));
    assert_eq!(done.worker_id.as_deref(), Some("w1"));
}

#[test]
fn replay_from_snapshot_continues_with_later_events() {
    let mut live = TupleSpace::new();
    live.enqueue_with_id(JobId("a".into()), "ocr".into(), "{}".into(), 3, T0);
    let (j, l) = live.claim("ocr", 30_000, None, T0).unwrap();
    live.complete(&j.id, &l, "null".into(), T0 + 1).unwrap();
    let snapshot = live.list(None);

    live.enqueue_with_id(JobId("b".into()), "ocr".into(), "{}".into(), 3, T0 + 2);
    let tail = vec![ev(7, T0 + 2, enqueue_op("b", "ocr", 3))];

    let rebuilt = replay(Some(snapshot), tail);
    assert_eq!(rebuilt.list(None), live.list(None));
    assert_eq!(rebuilt.get(&JobId("a".into())).unwrap().status, JobStatus::Done);
    assert_eq!(rebuilt.get(&JobId("b".into())).unwrap().status, JobStatus::Pending);
}

#[test]
fn replay_of_logged_expiries_matches_expiry_pass() {
    let mut live = TupleSpace::new();
    live.enqueue_with_id(JobId("a".into()), "ocr".into(), "{}".into(), 3, T0);
    live.enqueue_with_id(JobId("b".into()), "ocr".into(), "{}".into(), 3, T0 + 1);
    live.claim("ocr", -1_000, None, T0).unwrap();
    live.claim("ocr", 60_000, None, T0).unwrap();
    let before = live.list(None);

    let ids = live.expiring_ids(T0 + 10);
    assert_eq!(ids, vec![JobId("a".into())]);
    let events: Vec<StorageEvent> = ids.iter().enumerate()
        .map(|(k, id)| ev(k as i64, T0 + 10, EventOp::Expire { job_id: id.0.clone() }))
        .collect();
    let n = live.expire_leases(T0 + 10);
    assert_eq!(n, events.len());

    let rebuilt = replay(Some(before), events);
    assert_eq!(rebuilt.list(None), live.list(None));
    assert_eq!(live.get(&JobId("a".into())).unwrap().status, JobStatus::Pending);
    assert_eq!(live.get(&JobId("b".into())).unwrap().status, JobStatus::Claimed);
}

#[test]
fn replay_of_purge_and_retry() {
    let mut s = TupleSpace::new();
    apply(&mut s, enqueue_op("x", "ocr", 1), T0);
    apply(&mut s, EventOp::Claim { job_id: "x".into(), lease_id: "L".into(), lease_until: T0 + 50, worker_id: None }, T0);
    apply(&mut s, EventOp::Fail { job_id: "x".into(), lease_id: "L".into(), error: "boom".into() }, T0 + 1);
    assert_eq!(s.get(&JobId("x".into())).unwrap().status, JobStatus::Failed);
    apply(&mut s, EventOp::Retry { job_id: "x".into() }, T0 + 2);
    let j = s.get(&JobId("x".into())).unwrap();
    assert_eq!(j.status, JobStatus::Pending);
    assert_eq!(j.retries, 0);
    assert_eq!(j.error, None);
    apply(&mut s, EventOp::Purge { job_id: "x".into() }, T0 + 3);
    assert!(s.is_empty());
}

#[test]
fn replayed_event_with_stale_lease_changes_nothing() {
    let mut s = TupleSpace::new();
    apply(&mut s, enqueue_op("x", "ocr", 3), T0);
    apply(&mut s, EventOp::Claim { job_id: "x".into(), lease_id: "L1".into(), lease_until: T0 + 50, worker_id: None }, T0);
    let before = s.list(None);
    apply(&mut s, EventOp::Complete { job_id: "x".into(), lease_id: "L0".into(), result: "1".into() }, T0 + 1);
    assert_eq!(s.list(None), before);
    assert_eq!(s.get(&JobId("x".into())).unwrap().lease_id, Some(LeaseId("L1".into())));
}
