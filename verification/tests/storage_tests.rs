// The durable store driven as the server drives it, with the log and the
// snapshot kept in memory: each event is appended before its change is made
// (a claim right after), and reopening recovers from the latest snapshot and
// the events logged after it.

use viscacha::durable::DurableSpace;
use viscacha::error::SpaceError;
use viscacha::event::{EventOp, StorageEvent};
use viscacha::types::{Job, JobId, JobStatus, LeaseId};

const SEC: i64 = 1_000_000_000;

/// What survives a crash: the log and the latest snapshot.
#[derive(Clone, Default)]
struct Disk {
    events: Vec<StorageEvent>,
    snapshot: Option<(i64, Vec<Job>)>,
    next_seq: i64,
}

struct Persistent {
    space: DurableSpace,
    disk: Disk,
    clock: i64,
}

impl Persistent {
    fn open_in_memory() -> Self {
        Persistent { space: DurableSpace::new(), disk: Disk::default(), clock: 1_700_000_000 * SEC }
    }

    fn open(disk: &Disk) -> Self {
        let (after, jobs) = match &disk.snapshot {
            Some((seq, jobs)) => (*seq, Some(jobs.clone())),
            None => (0, None),
        };
        let events: Vec<StorageEvent> = disk.events.iter().filter(|e| e.seq > after).cloned().collect();
        let space = DurableSpace::recover(jobs, events);
        Persistent { space, disk: disk.clone(), clock: 1_800_000_000 * SEC }
    }

    fn now(&mut self) -> i64 {
        self.clock += 1000;
        self.clock
    }

    fn append(&mut self, now: i64, op: &EventOp) {
        self.disk.next_seq += 1;
        self.disk.events.push(StorageEvent { seq: self.disk.next_seq, timestamp: now, op: op.clone() });
    }

    fn commit(&mut self, op: EventOp, now: i64) -> Result<(), SpaceError> {
        self.append(now, &op);
        self.space.commit(op, now)
    }

    fn enqueue(&mut self, job_type: &str, args: &str, max_retries: u8) -> JobId {
        let now = self.now();
        let (id, op) = DurableSpace::prepare_enqueue(job_type.into(), args.into(), max_retries);
        self.commit(op, now).unwrap();
        id
    }

    fn claim(&mut self, job_type: &str, ttl: i64) -> Option<(Job, LeaseId)> {
        let now = self.now();
        let (job, lease, op) = self.space.claim(job_type, ttl, None, now)?;
        self.append(now, &op);
        Some((job, lease))
    }

    fn complete(&mut self, id: &JobId, lease: &LeaseId, result: &str) -> Result<(), SpaceError> {
        let now = self.now();
        let op = self.space.prepare_complete(id, lease, result.into())?;
        self.commit(op, now)
    }

    fn fail(&mut self, id: &JobId, lease: &LeaseId, error: &str) -> Result<(), SpaceError> {
        let now = self.now();
        let op = self.space.prepare_fail(id, lease, error.into())?;
        self.commit(op, now)
    }

    fn cancel(&mut self, id: &JobId) -> Result<(), SpaceError> {
        let now = self.now();
        let op = self.space.prepare_cancel(id)?;
        self.commit(op, now)
    }

    fn expire_leases(&mut self) -> usize {
        let now = self.now();
        let ops = self.space.expire_events(now);
        for op in &ops {
            self.append(now, op);
        }
        self.space.expire_leases(now).len()
    }

    fn snapshot(&mut self) {
        let seq = self.disk.next_seq;
        let jobs = self.space.list(None);
        self.disk.snapshot = Some((seq, jobs));
        self.disk.events.retain(|e| e.seq > seq);
        self.space.rebase();
    }

    fn get(&self, id: &JobId) -> Option<Job> {
        self.space.get(id)
    }
}

fn json(text: &str) -> serde_json::Value {
    serde_json::from_str(text).unwrap()
}

#[test]
fn enqueue_and_get() {
    let mut space = Persistent::open_in_memory();
    let id = space.enqueue("send_email", "{\"to\":\"a@b.com\"}", 3);
    let job = space.get(&id).unwrap();
    assert_eq!(job.status, JobStatus::Pending);
    assert_eq!(job.job_type, "send_email");
}

#[test]
fn claim_complete_lifecycle() {
    let mut space = Persistent::open_in_memory();
    space.enqueue("ocr", "{}", 3);
    let (job, lease) = space.claim("ocr", 30 * SEC).unwrap();
    assert_eq!(job.status, JobStatus::Claimed);

    space.complete(&job.id, &lease, "{\"pages\":5}").unwrap();
    let done = space.get(&job.id).unwrap();
    assert_eq!(done.status, JobStatus::Done);
    assert_eq!(json(&done.result.unwrap())["pages"], 5);
}

#[test]
fn storage_tests_cancel_pending_job() {
    let mut space = Persistent::open_in_memory();
    let id = space.enqueue("ocr", "{}", 3);
    space.cancel(&id).unwrap();
    assert_eq!(space.get(&id).unwrap().status, JobStatus::Cancelled);
}

#[test]
fn fail_retries_then_fails_permanently() {
    let mut space = Persistent::open_in_memory();
    space.enqueue("ocr", "{}", 2);

    let (j1, l1) = space.claim("ocr", 30 * SEC).unwrap();
    space.fail(&j1.id, &l1, "timeout").unwrap();
    assert_eq!(space.get(&j1.id).unwrap().status, JobStatus::Pending);

    let (j2, l2) = space.claim("ocr", 30 * SEC).unwrap();
    space.fail(&j2.id, &l2, "still broken").unwrap();
    assert_eq!(space.get(&j2.id).unwrap().status, JobStatus::Failed);
}

#[test]
fn crash_recovery_via_replay() {
    let (disk, job_id) = {
        let mut space = Persistent::open_in_memory();
        let id = space.enqueue("ocr", "{\"doc\":\"x.pdf\"}", 3);
        let (job, lease) = space.claim("ocr", 30 * SEC).unwrap();
        space.complete(&job.id, &lease, "{\"text\":\"hello\"}").unwrap();
        (space.disk.clone(), id)
    };

    let recovered = Persistent::open(&disk);
    let job = recovered.get(&job_id).unwrap();
    assert_eq!(job.status, JobStatus::Done);
    assert_eq!(json(&job.result.unwrap())["text"], "hello");
}

#[test]
fn crash_recovery_with_snapshot() {
    let (disk, id1, id2) = {
        let mut space = Persistent::open_in_memory();
        let id1 = space.enqueue("ocr", "{}", 3);
        let (j, l) = space.claim("ocr", 30 * SEC).unwrap();
        space.complete(&j.id, &l, "null").unwrap();

        space.snapshot();

        let id2 = space.enqueue("ocr", "{}", 3);
        (space.disk.clone(), id1, id2)
    };

    let recovered = Persistent::open(&disk);
    assert_eq!(recovered.get(&id1).unwrap().status, JobStatus::Done);
    assert_eq!(recovered.get(&id2).unwrap().status, JobStatus::Pending);
}

#[test]
fn expired_lease_is_replayed_correctly() {
    let (disk, job_id) = {
        let mut space = Persistent::open_in_memory();
        let id = space.enqueue("ocr", "{}", 3);
        // a negative time to live puts the lease end in the past
        let (_job, _lease) = space.claim("ocr", -SEC).unwrap();
        assert_eq!(space.expire_leases(), 1);
        (space.disk.clone(), id)
    };

    let recovered = Persistent::open(&disk);
    assert_eq!(recovered.get(&job_id).unwrap().status, JobStatus::Pending);
}
