use lockcheck::{with_deadlock_check, warn_lock_held, Attempt, DeadlockDetector, Error, QueueRwLock};

fn scoped(det: &mut DeadlockDetector, name: &str) -> usize {
    with_deadlock_check(det, None, name.to_string())
}

#[test]
fn check_deadlock() {
    let mut det = DeadlockDetector::new();
    let t = scoped(&mut det, "lock_test");
    let mut lock = QueueRwLock::new((), "main_lock".to_string(), &mut det);

    assert!(matches!(lock.queue(&mut det, Some(t)), Ok(Attempt::Acquired)));
    assert!(det.has_lock_held(t));

    // Cannot queue again inside the same task; reading is still allowed.
    assert!(lock.queue(&mut det, Some(t)).is_err());
    assert!(matches!(lock.read(&mut det, Some(t)), Ok(Attempt::Acquired)));
    lock.release_read(&mut det, t);

    assert!(matches!(lock.write(&mut det, Some(t)), Ok(Attempt::Acquired)));
    assert!(det.has_lock_held(t));

    // No queue or read under write.
    assert!(lock.queue(&mut det, Some(t)).is_err());
    assert!(lock.read(&mut det, Some(t)).is_err());

    lock.release_write(&mut det, t);
    assert!(!det.has_lock_held(t));

    assert!(matches!(lock.queue(&mut det, Some(t)), Ok(Attempt::Acquired)));
    lock.release_queue(&mut det, t);
    assert!(!det.has_lock_held(t));

    assert!(matches!(lock.read(&mut det, Some(t)), Ok(Attempt::Acquired)));
    assert!(det.has_lock_held(t));

    // Can read many times inside the same task.
    assert!(matches!(lock.read(&mut det, Some(t)), Ok(Attempt::Acquired)));
    lock.release_read(&mut det, t);
    lock.release_read(&mut det, t);
    assert!(!det.has_lock_held(t));
}

#[test]
fn should_error_if_run_without_deadlock_check() {
    let mut det = DeadlockDetector::new();
    let mut lock = QueueRwLock::new((), "main_lock".to_string(), &mut det);

    assert_eq!(lock.queue(&mut det, None).unwrap_err(), Error::NotDeadlockCheckFuture);
    assert_eq!(lock.read(&mut det, None).unwrap_err(), Error::NotDeadlockCheckFuture);
    assert_eq!(lock.write(&mut det, None).unwrap_err(), Error::NotDeadlockCheckFuture);
    assert!(!warn_lock_held(&det, None));
}

#[test]
fn queue_contention_one_at_a_time() {
    let mut det = DeadlockDetector::new();
    let t1 = scoped(&mut det, "first");
    let t2 = scoped(&mut det, "second");
    let t3 = scoped(&mut det, "third");
    let mut lock = QueueRwLock::new(0u32, "shared".to_string(), &mut det);

    assert!(matches!(lock.queue(&mut det, Some(t1)), Ok(Attempt::Acquired)));
    assert_eq!(lock.queuer(), Some(t1));

    // A second queuer suspends; a third gets no ticket without waiting.
    assert!(matches!(lock.queue(&mut det, Some(t2)), Ok(Attempt::MustWait)));
    assert!(!lock.try_queue(&mut det, Some(t3)));

    // Once the first queuer leaves, the waiter proceeds.
    lock.release_queue(&mut det, t1);
    lock.queue_granted(&mut det, t2);
    assert_eq!(lock.queuer(), Some(t2));
    lock.release_queue(&mut det, t2);
}

#[test]
fn try_queue_refused_exactly_when_stage_busy() {
    let mut det = DeadlockDetector::new();
    let t1 = scoped(&mut det, "holder");
    let t2 = scoped(&mut det, "taker");
    let mut lock = QueueRwLock::new((), "shared".to_string(), &mut det);

    // Outside a scope the ticket is always refused.
    assert!(!lock.try_queue(&mut det, None));

    // With the stage free it is granted.
    assert!(lock.try_queue(&mut det, Some(t1)));

    // With the queue stage occupied it is refused.
    assert!(!lock.try_queue(&mut det, Some(t2)));
    lock.release_queue(&mut det, t1);

    // With a writer owning the lock it is refused.
    assert!(matches!(lock.queue(&mut det, Some(t1)), Ok(Attempt::Acquired)));
    assert!(matches!(lock.write(&mut det, Some(t1)), Ok(Attempt::Acquired)));
    assert!(!lock.try_queue(&mut det, Some(t2)));
    lock.release_write(&mut det, t1);

    // Free again: granted again.
    assert!(lock.try_queue(&mut det, Some(t2)));
    lock.release_queue(&mut det, t2);
}

#[test]
fn recursive_read_allowed_recursive_write_refused() {
    let mut det = DeadlockDetector::new();
    let t = scoped(&mut det, "reader");
    let mut lock = QueueRwLock::new((), "shared".to_string(), &mut det);

    assert!(matches!(lock.read(&mut det, Some(t)), Ok(Attempt::Acquired)));
    assert!(matches!(lock.read(&mut det, Some(t)), Ok(Attempt::Acquired)));
    assert_eq!(lock.reader_count(t), 2);

    // The write path is reached from the queue stage; holding reads, the
    // queue ticket is still compatible, but the write is refused as a
    // recursive acquisition.
    assert!(matches!(lock.queue(&mut det, Some(t)), Ok(Attempt::Acquired)));
    assert_eq!(lock.write(&mut det, Some(t)).unwrap_err(), Error::RecursiveLock);

    lock.release_read(&mut det, t);
    lock.release_read(&mut det, t);
    assert!(!det.has_lock_held(t));
}

#[test]
fn cycle_across_two_locks() {
    let mut det = DeadlockDetector::new();
    let ta = scoped(&mut det, "task_a");
    let tb = scoped(&mut det, "task_b");
    let mut l1 = QueueRwLock::new((), "lock_one".to_string(), &mut det);
    let mut l2 = QueueRwLock::new((), "lock_two".to_string(), &mut det);

    // A holds the queue on L1; B holds the queue on L2.
    assert!(matches!(l1.queue(&mut det, Some(ta)), Ok(Attempt::Acquired)));
    assert!(matches!(l2.queue(&mut det, Some(tb)), Ok(Attempt::Acquired)));

    // A awaits the queue on L2.
    assert!(matches!(l2.queue(&mut det, Some(ta)), Ok(Attempt::MustWait)));

    // B's attempt on L1 would close the cycle and is refused.
    assert_eq!(l1.queue(&mut det, Some(tb)).unwrap_err(), Error::DeadlockDetected);

    // B backs out; A proceeds.
    l2.release_queue(&mut det, tb);
    l2.queue_granted(&mut det, ta);
    assert_eq!(l2.queuer(), Some(ta));
    l2.release_queue(&mut det, ta);
    l1.release_queue(&mut det, ta);
}

#[test]
fn queue_to_write_handoff_preserves_ordering() {
    let mut det = DeadlockDetector::new();
    let writer = scoped(&mut det, "writer");
    let reader = scoped(&mut det, "reader");
    let queuer = scoped(&mut det, "queuer");
    let mut lock = QueueRwLock::new(0u32, "shared".to_string(), &mut det);

    assert!(matches!(lock.queue(&mut det, Some(writer)), Ok(Attempt::Acquired)));
    assert!(matches!(lock.read(&mut det, Some(reader)), Ok(Attempt::Acquired)));

    // The transition to write waits for the reader, keeping the queue
    // stage occupied, so a second queuer suspends behind it.
    assert!(matches!(lock.write(&mut det, Some(writer)), Ok(Attempt::MustWait)));
    assert_eq!(lock.queuer(), Some(writer));
    assert!(matches!(lock.queue(&mut det, Some(queuer)), Ok(Attempt::MustWait)));

    lock.release_read(&mut det, reader);
    lock.write_granted(&mut det, writer);
    assert_eq!(lock.writer(), Some(writer));
    lock.set_value(writer, 42);
    lock.release_write(&mut det, writer);

    // Only now does the second queuer proceed, observing the mutation.
    lock.queue_granted(&mut det, queuer);
    assert_eq!(*lock.value(), 42);
    lock.release_queue(&mut det, queuer);
}

#[test]
fn cancellation_in_wait_state() {
    let mut det = DeadlockDetector::new();
    let holder = scoped(&mut det, "holder");
    let waiter = scoped(&mut det, "waiter");
    let next = scoped(&mut det, "next");
    let mut lock = QueueRwLock::new((), "shared".to_string(), &mut det);

    assert!(matches!(lock.queue(&mut det, Some(holder)), Ok(Attempt::Acquired)));
    assert!(matches!(lock.queue(&mut det, Some(waiter)), Ok(Attempt::MustWait)));
    assert_ne!(det.task_awaiting(waiter), 0);

    // The waiting future is dropped: the wait record is cleared and no
    // phantom holder remains.
    det.cancel_wait(waiter);
    assert_eq!(det.task_awaiting(waiter), 0);
    assert!(!det.has_lock_held(waiter));

    // Once the holder releases, a subsequent queuer succeeds.
    lock.release_queue(&mut det, holder);
    assert!(matches!(lock.queue(&mut det, Some(next)), Ok(Attempt::Acquired)));
    lock.release_queue(&mut det, next);
}

#[test]
fn get_mut_and_into_inner_need_no_locking() {
    let mut det = DeadlockDetector::new();
    let mut lock = QueueRwLock::new(7u32, "plain".to_string(), &mut det);
    *lock.get_mut() = 9;
    assert_eq!(*lock.value(), 9);
    assert_eq!(lock.into_inner(), 9);
}
