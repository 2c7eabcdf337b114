use viscacha::error::SpaceError;
use viscacha::space::TupleSpace;
use viscacha::types::{Job, JobId, JobStatus, LeaseId};

const T0: i64 = 5_000;

fn id(s: &str) -> JobId {
    JobId(s.into())
}

fn lease_held_iff_claimed(space: &TupleSpace) -> bool {
    space.list(None).iter().all(|j| {
        let claimed = j.status == JobStatus::Claimed;
        claimed == j.lease_id.is_some() && claimed == j.lease_until.is_some()
    })
}

#[test]
fn claim_takes_oldest_pending_of_type() {
    let mut s = TupleSpace::new();
    s.enqueue_with_id(id("late"), "ocr".into(), "{}".into(), 3, T0 + 10);
    s.enqueue_with_id(id("early"), "ocr".into(), "{}".into(), 3, T0);
    s.enqueue_with_id(id("other"), "mail".into(), "{}".into(), 3, T0 - 10);
    let (j, _) = s.claim("ocr", 1000, None, T0 + 20).unwrap();
    assert_eq!(j.id, id("early"));
    let (j, _) = s.claim("ocr", 1000, None, T0 + 20).unwrap();
    assert_eq!(j.id, id("late"));
    assert!(s.claim("ocr", 1000, None, T0 + 20).is_none());
}

#[test]
fn claim_ties_broken_by_id_bytes() {
    let mut s = TupleSpace::new();
    s.enqueue_with_id(id("b-2"), "ocr".into(), "{}".into(), 3, T0);
    s.enqueue_with_id(id("a-9"), "ocr".into(), "{}".into(), 3, T0);
    s.enqueue_with_id(id("a-10"), "ocr".into(), "{}".into(), 3, T0);
    let order: Vec<String> = (0..3).map(|_| s.claim("ocr", 1000, None, T0).unwrap().0.id.0).collect();
    assert_eq!(order, vec!["a-10".to_string(), "a-9".to_string(), "b-2".to_string()]);
}

#[test]
fn claim_stamps_lease_and_worker() {
    let mut s = TupleSpace::new();
    s.enqueue_with_id(id("j"), "ocr".into(), "{}".into(), 3, T0);
    let (j, lease) = s.claim("ocr", 30_000, Some("gpu-3".into()), T0 + 7).unwrap();
    assert_eq!(j.status, JobStatus::Claimed);
    assert_eq!(j.started_at, Some(T0 + 7));
    assert_eq!(j.lease_until, Some(T0 + 30_007));
    assert_eq!(j.lease_id, Some(lease.clone()));
    assert_eq!(j.worker_id.as_deref(), Some("gpu-3"));
    assert_eq!(lease.0.len(), 36);
    assert_eq!(s.get(&id("j")).unwrap(), j);
}

#[test]
fn lease_end_clamps_at_time_limits() {
    let mut s = TupleSpace::new();
    s.enqueue_with_id(id("j"), "ocr".into(), "{}".into(), 3, T0);
    let (j, _) = s.claim("ocr", i64::MAX, None, T0).unwrap();
    assert_eq!(j.lease_until, Some(i64::MAX));
}

#[test]
fn errors_name_the_missing_or_misplaced_job() {
    let mut s = TupleSpace::new();
    let lease = LeaseId("l".into());
    assert!(matches!(s.complete(&id("nope"), &lease, "1".into(), T0), Err(SpaceError::NotFound(JobId(x))) if x == "nope"));
    assert!(matches!(s.fail(&id("nope"), &lease, "e".into(), T0), Err(SpaceError::NotFound(_))));
    assert!(matches!(s.extend_lease(&id("nope"), &lease, T0), Err(SpaceError::NotFound(_))));
    assert!(matches!(s.cancel(&id("nope"), T0), Err(SpaceError::NotFound(_))));
    assert!(matches!(s.retry(&id("nope"), T0), Err(SpaceError::NotFound(_))));

    s.enqueue_with_id(id("p"), "ocr".into(), "{}".into(), 3, T0);
    assert!(matches!(s.complete(&id("p"), &lease, "1".into(), T0), Err(SpaceError::NotClaimed(JobId(x))) if x == "p"));
    match s.retry(&id("p"), T0) {
        Err(SpaceError::InvalidTransition { from, to }) => {
            assert_eq!(from, "pending");
            assert_eq!(to, "pending");
        }
        other => panic!("unexpected {:?}", other),
    }
}

#[test]
fn retry_resets_failed_job() {
    let mut s = TupleSpace::new();
    s.enqueue_with_id(id("j"), "ocr".into(), "{}".into(), 1, T0);
    let (j, l) = s.claim("ocr", 1000, None, T0).unwrap();
    s.fail(&j.id, &l, "boom".into(), T0 + 1).unwrap();
    assert_eq!(s.get(&j.id).unwrap().retries, 1);
    s.retry(&j.id, T0 + 2).unwrap();
    let r = s.get(&j.id).unwrap();
    assert_eq!(r.status, JobStatus::Pending);
    assert_eq!(r.retries, 0);
    assert_eq!(r.error, None);
    assert_eq!(r.finished_at, None);
    assert_eq!(r.enqueued_at, T0);
}

#[test]
fn failure_with_zero_retries_allowed_fails_at_once() {
    let mut s = TupleSpace::new();
    s.enqueue_with_id(id("j"), "ocr".into(), "{}".into(), 0, T0);
    let (j, l) = s.claim("ocr", 1000, None, T0).unwrap();
    s.fail(&j.id, &l, "e".into(), T0 + 1).unwrap();
    let f = s.get(&j.id).unwrap();
    assert_eq!(f.status, JobStatus::Failed);
    assert_eq!(f.retries, 1);
    assert_eq!(f.finished_at, Some(T0 + 1));
}

#[test]
fn extend_lease_moves_lease_end() {
    let mut s = TupleSpace::new();
    s.enqueue_with_id(id("j"), "ocr".into(), "{}".into(), 3, T0);
    let (j, l) = s.claim("ocr", 1000, None, T0).unwrap();
    s.extend_lease(&j.id, &l, T0 + 9000).unwrap();
    assert_eq!(s.get(&j.id).unwrap().lease_until, Some(T0 + 9000));
    assert_eq!(s.expire_leases(T0 + 5000), 0);
    assert!(matches!(s.extend_lease(&j.id, &LeaseId("other".into()), T0), Err(SpaceError::LeaseInvalid)));
}

#[test]
fn restore_remove_and_replace() {
    let mut s = TupleSpace::new();
    let job = Job::new(id("r"), "ocr".into(), "{}".into(), 2, T0);
    s.restore(job.clone());
    assert_eq!(s.len(), 1);
    let mut changed = job.clone();
    changed.args = r#"{"k":1}"#.into();
    s.restore(changed.clone());
    assert_eq!(s.len(), 1);
    assert_eq!(s.get(&id("r")).unwrap(), changed);
    s.remove(&id("missing"));
    assert_eq!(s.len(), 1);
    s.remove(&id("r"));
    assert!(s.is_empty());
}

#[test]
fn apply_claim_and_apply_expire() {
    let mut s = TupleSpace::new();
    s.enqueue_with_id(id("j"), "ocr".into(), "{}".into(), 3, T0);
    s.apply_claim(id("j"), LeaseId("L".into()), T0 + 100, T0 + 1, Some("w".into()));
    let c = s.get(&id("j")).unwrap();
    assert_eq!(c.status, JobStatus::Claimed);
    assert_eq!(c.started_at, Some(T0 + 1));
    assert_eq!(c.lease_until, Some(T0 + 100));
    s.apply_expire(id("j"));
    let p = s.get(&id("j")).unwrap();
    assert_eq!(p.status, JobStatus::Pending);
    assert_eq!(p.lease_id, None);
    assert_eq!(p.started_at, None);
}

#[test]
fn every_operation_keeps_leases_only_on_claimed_jobs() {
    let mut s = TupleSpace::new();
    let a = s.enqueue("ocr".into(), "{}".into(), 2, T0);
    let b = s.enqueue("ocr".into(), "{}".into(), 1, T0 + 1);
    s.enqueue("ocr".into(), "{}".into(), 1, T0 + 2);
    assert!(lease_held_iff_claimed(&s));
    let (j1, l1) = s.claim("ocr", 1000, None, T0 + 3).unwrap();
    assert!(lease_held_iff_claimed(&s));
    s.fail(&j1.id, &l1, "e".into(), T0 + 4).unwrap();
    assert!(lease_held_iff_claimed(&s));
    let (j2, l2) = s.claim("ocr", 1000, None, T0 + 5).unwrap();
    s.extend_lease(&j2.id, &l2, T0 + 50).unwrap();
    assert!(lease_held_iff_claimed(&s));
    s.expire_leases(T0 + 100);
    assert!(lease_held_iff_claimed(&s));
    s.cancel(&b, T0 + 101).ok();
    s.remove(&a);
    assert!(lease_held_iff_claimed(&s));
}

#[test]
fn enqueue_ids_are_uuid_text() {
    let mut s = TupleSpace::new();
    let a = s.enqueue("t".into(), "{}".into(), 3, T0);
    let b = s.enqueue("t".into(), "{}".into(), 3, T0);
    assert_eq!(a.0.len(), 36);
    assert_ne!(a, b);
    assert_eq!(s.len(), 2);
}

#[test]
fn settled_jobs_are_left_alone() {
    let mut s = TupleSpace::new();
    s.enqueue_with_id(id("d"), "ocr".into(), "{}".into(), 3, T0);
    let (j, l) = s.claim("ocr", 1000, None, T0).unwrap();
    s.complete(&j.id, &l, "1".into(), T0 + 1).unwrap();
    let done = s.get(&id("d")).unwrap();
    assert!(s.claim("ocr", 1000, None, T0 + 2).is_none());
    assert!(s.complete(&j.id, &l, "2".into(), T0 + 3).is_err());
    assert!(s.fail(&j.id, &l, "e".into(), T0 + 3).is_err());
    assert!(s.cancel(&j.id, T0 + 3).is_err());
    assert!(s.retry(&j.id, T0 + 3).is_err());
    assert!(s.extend_lease(&j.id, &l, T0 + 9).is_err());
    assert_eq!(s.expire_leases(i64::MAX), 0);
    assert_eq!(s.get(&id("d")).unwrap(), done);
}
