use viscacha::error::SpaceError;
use viscacha::space::TupleSpace;
use viscacha::types::{JobId, LeaseId};

const T0: i64 = 10_000;

fn id(s: &str) -> JobId {
    JobId(s.into())
}

#[test]
fn holder_check_before_logging() {
    let mut s = TupleSpace::new();
    s.enqueue_with_id(id("p"), "ocr".into(), "{}".into(), 3, T0);
    let l = LeaseId("x".into());
    assert!(matches!(s.check_lease_holder(&id("none"), &l), Err(SpaceError::NotFound(_))));
    // a pending job holds no lease, so the check reports the lease, not the state
    assert!(matches!(s.check_lease_holder(&id("p"), &l), Err(SpaceError::LeaseInvalid)));
    let (_, lease) = s.claim("ocr", 1000, None, T0).unwrap();
    assert!(s.check_lease_holder(&id("p"), &lease).is_ok());
    assert!(matches!(s.check_lease_holder(&id("p"), &l), Err(SpaceError::LeaseInvalid)));
}

#[test]
fn cancel_and_retry_checks_before_logging() {
    let mut s = TupleSpace::new();
    s.enqueue_with_id(id("p"), "ocr".into(), "{}".into(), 0, T0);
    assert!(s.check_cancel(&id("p")).is_ok());
    assert!(matches!(s.check_retry(&id("p")), Err(SpaceError::InvalidTransition { .. })));
    let (_, lease) = s.claim("ocr", 1000, None, T0).unwrap();
    assert!(matches!(s.check_cancel(&id("p")), Err(SpaceError::NotPending(_))));
    s.fail(&id("p"), &lease, "e".into(), T0 + 1).unwrap();
    assert!(s.check_retry(&id("p")).is_ok());
    assert!(matches!(s.check_cancel(&id("q")), Err(SpaceError::NotFound(_))));
}

#[test]
fn purgeable_ids_are_old_finished_jobs() {
    let mut s = TupleSpace::new();
    for (name, t) in [("a", T0), ("b", T0 + 1), ("c", T0 + 2)] {
        s.enqueue_with_id(id(name), "ocr".into(), "{}".into(), 3, t);
    }
    s.cancel(&id("a"), T0 + 100).unwrap();
    s.cancel(&id("b"), T0 + 5000).unwrap();
    // cutoff = now - age = T0 + 1000
    let ids = s.purgeable_ids(T0 + 2000, 1000);
    assert_eq!(ids, vec![id("a")]);
    let ids = s.purgeable_ids(T0 + 10_000, 1000);
    assert_eq!(ids, vec![id("a"), id("b")]);
    assert_eq!(s.purgeable_ids(i64::MIN, i64::MAX), Vec::<JobId>::new());
}

#[test]
fn claimed_ids_lists_claimed_jobs() {
    let mut s = TupleSpace::new();
    s.enqueue_with_id(id("a"), "ocr".into(), "{}".into(), 3, T0);
    s.enqueue_with_id(id("b"), "ocr".into(), "{}".into(), 3, T0 + 1);
    assert!(s.claimed_ids().is_empty());
    s.claim("ocr", 1000, None, T0).unwrap();
    assert_eq!(s.claimed_ids(), vec![id("a")]);
}
