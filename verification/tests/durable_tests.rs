use viscacha::clock::ns_to_ms;
use viscacha::durable::DurableSpace;
use viscacha::error::SpaceError;
use viscacha::event::{EventOp, StorageEvent};
use viscacha::replay::replay;
use viscacha::types::{Job, JobId, JobStatus, LeaseId};

const SEC: i64 = 1_000_000_000;
const T0: i64 = 1_700_000_000 * SEC;

/// A durable store with the log it has appended, as the server keeps them.
struct Logged {
    store: DurableSpace,
    log: Vec<StorageEvent>,
}

impl Logged {
    fn new() -> Self {
        Logged { store: DurableSpace::new(), log: Vec::new() }
    }

    fn append(&mut self, op: &EventOp, now: i64) {
        let seq = self.log.len() as i64 + 1;
        self.log.push(StorageEvent { seq, timestamp: now, op: op.clone() });
    }

    fn enqueue(&mut self, job_type: &str, max_retries: u8, now: i64) -> JobId {
        let (id, op) = DurableSpace::prepare_enqueue(job_type.into(), "{}".into(), max_retries);
        self.append(&op, now);
        self.store.commit(op, now).unwrap();
        id
    }

    fn claim(&mut self, job_type: &str, ttl: i64, now: i64) -> (Job, LeaseId) {
        let (job, lease, op) = self.store.claim(job_type, ttl, Some("w1".into()), now).unwrap();
        self.append(&op, now);
        (job, lease)
    }

    fn rebuilt(&self) -> Vec<Job> {
        replay(None, self.log.clone()).list(None)
    }
}

#[test]
fn replaying_the_log_rebuilds_the_durable_store() {
    let mut d = Logged::new();
    let a = d.enqueue("ocr", 3, T0);
    let b = d.enqueue("ocr", 1, T0 + 1);
    let c = d.enqueue("mail", 0, T0 + 2);
    let (_, la) = d.claim("ocr", 30 * SEC, T0 + 10);
    let op = d.store.prepare_complete(&a, &la, "{\"ok\":1}".into()).unwrap();
    d.append(&op, T0 + 20);
    d.store.commit(op, T0 + 20).unwrap();
    let (_, lb) = d.claim("ocr", 30 * SEC, T0 + 30);
    let op = d.store.prepare_fail(&b, &lb, "boom".into()).unwrap();
    d.append(&op, T0 + 40);
    d.store.commit(op, T0 + 40).unwrap();
    let op = d.store.prepare_retry(&b).unwrap();
    d.append(&op, T0 + 50);
    d.store.commit(op, T0 + 50).unwrap();
    let op = d.store.prepare_cancel(&c).unwrap();
    d.append(&op, T0 + 60);
    d.store.commit(op, T0 + 60).unwrap();
    let _ = d.claim("ocr", 5, T0 + 70);
    let ops = d.store.expire_leases(T0 + 100);
    assert_eq!(ops, vec![EventOp::Expire { job_id: b.0.clone() }]);
    for op in &ops {
        d.append(op, T0 + 100);
    }

    let live = d.store.list(None);
    assert_eq!(live.len(), 3);
    assert_eq!(d.rebuilt(), live);
    assert_eq!(d.store.get(&a).unwrap().status, JobStatus::Done);
    assert_eq!(d.store.get(&b).unwrap().status, JobStatus::Pending);
    assert_eq!(d.store.get(&c).unwrap().status, JobStatus::Cancelled);
}

#[test]
fn claim_event_records_the_new_lease() {
    let mut d = Logged::new();
    let a = d.enqueue("ocr", 3, T0);
    let (job, lease, op) = d.store.claim("ocr", 30 * SEC, Some("w9".into()), T0 + 5).unwrap();
    assert_eq!(job.id, a);
    assert_eq!(job.lease_until, Some(T0 + 5 + 30 * SEC));
    assert_eq!(
        op,
        EventOp::Claim {
            job_id: a.0.clone(),
            lease_id: lease.0.clone(),
            lease_until: T0 + 5 + 30 * SEC,
            worker_id: Some("w9".into()),
        }
    );
    assert!(d.store.claim("ocr", 30 * SEC, None, T0 + 6).is_none());
    assert!(d.store.claim("mail", 30 * SEC, None, T0 + 6).is_none());
}

#[test]
fn checks_before_logging_report_errors() {
    let mut d = Logged::new();
    let a = d.enqueue("ocr", 0, T0);
    let stranger = LeaseId("nope".into());
    assert!(matches!(d.store.prepare_complete(&JobId("x".into()), &stranger, "r".into()), Err(SpaceError::NotFound(_))));
    assert!(matches!(d.store.prepare_fail(&a, &stranger, "e".into()), Err(SpaceError::LeaseInvalid)));
    assert!(matches!(d.store.prepare_retry(&a), Err(SpaceError::InvalidTransition { .. })));
    assert!(matches!(d.store.prepare_retry(&JobId("x".into())), Err(SpaceError::NotFound(_))));
    let (_, lease) = d.claim("ocr", 30 * SEC, T0 + 1);
    assert!(matches!(d.store.prepare_cancel(&a), Err(SpaceError::NotPending(_))));
    assert_eq!(
        d.store.prepare_complete(&a, &lease, "r".into()).unwrap(),
        EventOp::Complete { job_id: a.0.clone(), lease_id: lease.0.clone(), result: "r".into() }
    );
}

#[test]
fn commit_reports_what_the_store_answers() {
    let mut d = Logged::new();
    let a = d.enqueue("ocr", 3, T0);
    let stale = EventOp::Complete { job_id: a.0.clone(), lease_id: "old".into(), result: "r".into() };
    assert!(matches!(d.store.commit(stale, T0 + 1), Err(SpaceError::NotClaimed(_))));
    assert_eq!(d.store.get(&a).unwrap().status, JobStatus::Pending);
    let retry = EventOp::Retry { job_id: a.0.clone() };
    match d.store.commit(retry, T0 + 2) {
        Err(SpaceError::InvalidTransition { from, to }) => {
            assert_eq!(from, "pending");
            assert_eq!(to, "pending");
        },
        other => panic!("unexpected {other:?}"),
    }
    let missing = EventOp::Retry { job_id: "ghost".into() };
    match d.store.commit(missing, T0 + 2) {
        Err(SpaceError::NotFound(id)) => assert_eq!(id, JobId("ghost".into())),
        other => panic!("unexpected {other:?}"),
    }
    let cancel = EventOp::Cancel { job_id: a.0.clone() };
    assert!(d.store.commit(cancel, T0 + 3).is_ok());
    assert_eq!(d.store.get(&a).unwrap().finished_at, Some(T0 + 3));
}

#[test]
fn heartbeat_moves_only_the_lease_end() {
    let mut d = Logged::new();
    let a = d.enqueue("ocr", 3, T0);
    let (_, lease) = d.claim("ocr", 30 * SEC, T0 + 1);
    assert!(matches!(d.store.extend_lease(&a, &LeaseId("x".into()), T0 + 90 * SEC), Err(SpaceError::LeaseInvalid)));
    assert_eq!(d.rebuilt(), d.store.list(None));
    d.store.extend_lease(&a, &lease, T0 + 90 * SEC).unwrap();
    let job = d.store.get(&a).unwrap();
    assert_eq!(job.lease_until, Some(T0 + 90 * SEC));
    let rebuilt = d.rebuilt();
    assert_eq!(rebuilt[0].lease_until, Some(T0 + 1 + 30 * SEC));
    assert_eq!(Job { lease_until: job.lease_until, ..rebuilt[0].clone() }, job);
}

#[test]
fn drain_returns_claimed_jobs_and_logs_expiries() {
    let mut d = Logged::new();
    let a = d.enqueue("ocr", 3, T0);
    let b = d.enqueue("ocr", 3, T0 + 1);
    let c = d.enqueue("ocr", 3, T0 + 2);
    d.claim("ocr", 30 * SEC, T0 + 10);
    d.claim("ocr", 30 * SEC, T0 + 11);
    let ops = d.store.drain_claimed(T0 + 20);
    assert_eq!(ops, vec![EventOp::Expire { job_id: a.0.clone() }, EventOp::Expire { job_id: b.0.clone() }]);
    for op in &ops {
        d.append(op, T0 + 20);
    }
    for id in [&a, &b, &c] {
        let j = d.store.get(id).unwrap();
        assert_eq!(j.status, JobStatus::Pending);
        assert_eq!(j.lease_id, None);
    }
    assert_eq!(d.rebuilt(), d.store.list(None));
    assert!(d.store.drain_claimed(T0 + 30).is_empty());
}

#[test]
fn purge_events_remove_old_finished_jobs_when_committed() {
    let mut d = Logged::new();
    let a = d.enqueue("ocr", 3, T0);
    let b = d.enqueue("ocr", 3, T0 + 1);
    let c = d.enqueue("ocr", 3, T0 + 2);
    for (id, t) in [(&a, T0 + 10), (&c, T0 + 5000)] {
        let op = d.store.prepare_cancel(id).unwrap();
        d.append(&op, t);
        d.store.commit(op, t).unwrap();
    }
    let ops = d.store.purge_events(T0 + 2000, 1000);
    assert_eq!(ops, vec![EventOp::Purge { job_id: a.0.clone() }]);
    for op in ops {
        d.append(&op, T0 + 2000);
        d.store.commit(op, T0 + 2000).unwrap();
    }
    assert_eq!(d.store.len(), 2);
    assert!(d.store.get(&a).is_none());
    assert!(d.store.get(&b).is_some());
    assert_eq!(d.rebuilt(), d.store.list(None));
}

#[test]
fn snapshot_then_rebase_restores_exactly() {
    let mut d = Logged::new();
    let a = d.enqueue("ocr", 3, T0);
    d.enqueue("mail", 3, T0 + 1);
    let (_, lease) = d.claim("ocr", 30 * SEC, T0 + 2);
    d.store.extend_lease(&a, &lease, T0 + 99 * SEC).unwrap();
    let snapshot = d.store.list(None);
    d.store.rebase();
    d.log.clear();
    assert_eq!(replay(Some(snapshot.clone()), vec![]).list(None), snapshot);
    let recovered = DurableSpace::recover(Some(snapshot.clone()), vec![]);
    assert_eq!(recovered.list(None), d.store.list(None));
}

#[test]
fn recover_replays_snapshot_and_later_events() {
    let mut d = Logged::new();
    let a = d.enqueue("ocr", 3, T0);
    let snapshot = d.store.list(None);
    let before = d.log.len();
    let (_, lease) = d.claim("ocr", 30 * SEC, T0 + 2);
    let op = d.store.prepare_complete(&a, &lease, "{}".into()).unwrap();
    d.append(&op, T0 + 3);
    d.store.commit(op, T0 + 3).unwrap();
    let later: Vec<StorageEvent> = d.log[before..].to_vec();
    let recovered = DurableSpace::recover(Some(snapshot), later);
    assert_eq!(recovered.list(None), d.store.list(None));
    assert_eq!(recovered.get(&a).unwrap().status, JobStatus::Done);
}

#[test]
fn fresh_ids_are_hyphenated_version_four_uuids() {
    for _ in 0..20 {
        let (id, op) = DurableSpace::prepare_enqueue("ocr".into(), "{}".into(), 1);
        let s: Vec<char> = id.0.chars().collect();
        assert_eq!(s.len(), 36);
        for (i, c) in s.iter().enumerate() {
            if [8, 13, 18, 23].contains(&i) {
                assert_eq!(*c, '-');
            } else {
                assert!(c.is_ascii_digit() || ('a'..='f').contains(c));
            }
        }
        assert_eq!(s[14], '4');
        assert!(['8', '9', 'a', 'b'].contains(&s[19]));
        assert_eq!(op, EventOp::Enqueue { job_id: id.0.clone(), job_type: "ocr".into(), args: "{}".into(), max_retries: 1 });
    }
}

#[test]
fn negative_durations_round_toward_zero_in_milliseconds() {
    assert_eq!(ns_to_ms(-1), 0);
    assert_eq!(ns_to_ms(-1_999_999), -1);
    assert_eq!(ns_to_ms(2_999_999), 2);
    assert_eq!(ns_to_ms(i64::MIN), -9_223_372_036_854);
}
