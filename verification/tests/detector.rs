use lockcheck::{
    with_deadlock_check, warn_lock_held, Attempt, DeadlockDetector, Error, LongLock, Ops,
    QueueRwLock, LONG_LOCK_MS,
};

fn scoped(det: &mut DeadlockDetector, name: &str) -> usize {
    with_deadlock_check(det, None, name.to_string())
}

#[test]
fn scope_reentry_is_a_noop() {
    let mut det = DeadlockDetector::new();
    assert_eq!(det.task_count(), 0);

    let t = with_deadlock_check(&mut det, None, "outer".to_string());
    assert_eq!(det.task_count(), 1);

    // A nested scope reuses the existing context.
    let inner = with_deadlock_check(&mut det, Some(t), "inner".to_string());
    assert_eq!(inner, t);
    assert_eq!(det.task_count(), 1);

    let other = with_deadlock_check(&mut det, None, "second".to_string());
    assert_ne!(other, t);
    assert_eq!(det.task_count(), 2);
}

#[test]
fn warn_lock_held_reports_only_held_locks() {
    let mut det = DeadlockDetector::new();
    assert!(!warn_lock_held(&det, None));

    let t = scoped(&mut det, "worker");
    assert!(!warn_lock_held(&det, Some(t)));

    let mut lock = QueueRwLock::new((), "state".to_string(), &mut det);
    assert!(matches!(lock.read(&mut det, Some(t)), Ok(Attempt::Acquired)));
    assert!(warn_lock_held(&det, Some(t)));

    lock.release_read(&mut det, t);
    assert!(!warn_lock_held(&det, Some(t)));
}

#[test]
fn at_most_one_wait_per_task() {
    let mut det = DeadlockDetector::new();
    let holder1 = scoped(&mut det, "holder_one");
    let holder2 = scoped(&mut det, "holder_two");
    let waiter = scoped(&mut det, "waiter");
    let mut l1 = QueueRwLock::new((), "first".to_string(), &mut det);
    let mut l2 = QueueRwLock::new((), "second".to_string(), &mut det);

    assert!(matches!(l1.queue(&mut det, Some(holder1)), Ok(Attempt::Acquired)));
    assert!(matches!(l2.queue(&mut det, Some(holder2)), Ok(Attempt::Acquired)));

    // The waiter suspends on the first lock; while that wait stands, a
    // second wait — on another lock — is an illegal re-entry.
    assert!(matches!(l1.queue(&mut det, Some(waiter)), Ok(Attempt::MustWait)));
    assert_ne!(det.task_awaiting(waiter), 0);
    assert_eq!(l2.queue(&mut det, Some(waiter)).unwrap_err(), Error::DeadlockDetected);

    det.cancel_wait(waiter);
    l1.release_queue(&mut det, holder1);
    l2.release_queue(&mut det, holder2);
}

#[test]
fn acquisitions_pair_with_releases() {
    let mut det = DeadlockDetector::new();
    let t = scoped(&mut det, "worker");
    let mut lock = QueueRwLock::new((), "state".to_string(), &mut det);

    for _ in 0..3 {
        assert!(matches!(lock.read(&mut det, Some(t)), Ok(Attempt::Acquired)));
    }
    assert_eq!(lock.reader_count(t), 3);
    assert!(det.has_lock_held(t));

    for _ in 0..3 {
        lock.release_read(&mut det, t);
    }
    assert_eq!(lock.reader_count(t), 0);
    assert!(!det.has_lock_held(t));
}

#[test]
fn compatibility_table() {
    assert!(Ops::Read.compatible(Ops::Read));
    assert!(Ops::Read.compatible(Ops::Queue));
    assert!(Ops::Queue.compatible(Ops::Read));
    assert!(!Ops::Queue.compatible(Ops::Queue));
    assert!(!Ops::Read.compatible(Ops::Write));
    assert!(!Ops::Write.compatible(Ops::Read));
    assert!(!Ops::Write.compatible(Ops::Write));
    assert!(!Ops::Write.compatible(Ops::Queue));
    assert!(!Ops::Queue.compatible(Ops::Write));
}

#[test]
fn ops_labels_and_recommended_durations() {
    assert_eq!(Ops::Read.as_str(), "read");
    assert_eq!(Ops::Write.as_str(), "write");
    assert_eq!(Ops::Queue.as_str(), "queue");
    assert_eq!(Ops::Read.recommend_dur(), 30000);
    assert_eq!(Ops::Queue.recommend_dur(), 2000);
    assert_eq!(Ops::Write.recommend_dur(), 1000);
}

#[test]
fn error_descriptions_and_equality() {
    assert_eq!(Error::DeadlockDetected, Error::DeadlockDetected);
    assert_ne!(Error::DeadlockDetected, Error::RecursiveLock);
    assert_eq!(Error::DeadlockDetected.describe(), "Deadlock detected.");
    assert_eq!(Error::RecursiveLock.describe(), "Recursive lock.");
    assert_eq!(
        Error::NotDeadlockCheckFuture.describe(),
        "Must run inside a with_deadlock_check future."
    );
    assert_eq!(Error::SyncLockTimeout.describe(), "Synchronous lock for too long");
    assert_eq!(Error::not_deadlock_check_future("anything"), Error::NotDeadlockCheckFuture);
}

#[test]
fn long_lock_stopwatch() {
    let watch = LongLock::new("queue");
    assert_eq!(watch.op(), "queue");
    // Freshly started: far under the long-hold threshold.
    let elapsed = watch.elapsed();
    assert!(elapsed < LONG_LOCK_MS);
    assert!(!LongLock::exceeded(elapsed));
    assert!(LongLock::exceeded(LONG_LOCK_MS + 1));
    assert!(!LongLock::exceeded(LONG_LOCK_MS));
}

#[test]
fn lock_ids_are_assigned_once_and_monotonically() {
    let mut det = DeadlockDetector::new();
    let t = scoped(&mut det, "worker");
    assert!(det.ids_available());
    assert_eq!(det.lock_count(), 0);

    let mut l1 = QueueRwLock::new((), "first".to_string(), &mut det);
    let mut l2 = QueueRwLock::new((), "second".to_string(), &mut det);
    assert_eq!(det.lock_count(), 2);

    // Ids appear on first use, not at creation; repeated use keeps them.
    assert!(matches!(l2.read(&mut det, Some(t)), Ok(Attempt::Acquired)));
    l2.release_read(&mut det, t);
    assert!(matches!(l1.read(&mut det, Some(t)), Ok(Attempt::Acquired)));
    l1.release_read(&mut det, t);
    assert!(matches!(l2.read(&mut det, Some(t)), Ok(Attempt::Acquired)));
    l2.release_read(&mut det, t);
    assert!(!det.has_lock_held(t));
}
