use lockcheck::sync::async_mutex::Mutex as AsyncMutex;
use lockcheck::sync::async_rwlock::RwLock as AsyncRwLock;
use lockcheck::sync::mutex::Mutex as SyncMutex;
use lockcheck::sync::rwlock::RwLock as SyncRwLock;
use lockcheck::{with_deadlock_check, Attempt, DeadlockDetector, Error};

fn scoped(det: &mut DeadlockDetector, name: &str) -> usize {
    with_deadlock_check(det, None, name.to_string())
}

#[test]
fn async_mutex_can_keep_lock_across_await_point() {
    let mut det = DeadlockDetector::new();
    let t1 = scoped(&mut det, "test");
    let t2 = scoped(&mut det, "test");
    let mut mutex = AsyncMutex::new((), "test".to_string(), &mut det);

    assert!(matches!(mutex.lock(&mut det, Some(t1)), Ok(Attempt::Acquired)));

    // The spawned task suspends on the mutex while the first holds it
    // across its suspension point, and proceeds once it is released.
    assert!(matches!(mutex.lock(&mut det, Some(t2)), Ok(Attempt::MustWait)));
    mutex.unlock(&mut det, t1);
    mutex.lock_granted(&mut det, t2);
    assert_eq!(mutex.owner(), Some(t2));
    mutex.unlock(&mut det, t2);
}

#[test]
fn async_mutex_recursive_call_returns_an_error() {
    let mut det = DeadlockDetector::new();
    let t = scoped(&mut det, "test");
    let mut mutex = AsyncMutex::new((), "test".to_string(), &mut det);

    assert!(matches!(mutex.lock(&mut det, Some(t)), Ok(Attempt::Acquired)));
    assert!(mutex.lock(&mut det, Some(t)).is_err());
    mutex.unlock(&mut det, t);
}

#[test]
fn async_rwlock_can_keep_lock_across_await_point() {
    let mut det = DeadlockDetector::new();
    let t1 = scoped(&mut det, "test");
    let t2 = scoped(&mut det, "test");
    let mut rwlock = AsyncRwLock::new(10u32, "test".to_string(), &mut det);

    assert!(matches!(rwlock.write(&mut det, Some(t1)), Ok(Attempt::Acquired)));

    assert!(matches!(rwlock.read(&mut det, Some(t2)), Ok(Attempt::MustWait)));
    rwlock.release_write(&mut det, t1);
    rwlock.read_granted(&mut det, t2);
    assert_eq!(rwlock.reader_count(t2), 1);
    assert_eq!(*rwlock.value(), 10);
    rwlock.release_read(&mut det, t2);
}

#[test]
fn async_rwlock_recursive_call_returns_an_error() {
    let mut det = DeadlockDetector::new();
    let t = scoped(&mut det, "test");
    let mut rwlock = AsyncRwLock::new((), "test".to_string(), &mut det);

    assert!(matches!(rwlock.read(&mut det, Some(t)), Ok(Attempt::Acquired)));

    assert!(matches!(rwlock.read(&mut det, Some(t)), Ok(Attempt::Acquired)));
    rwlock.release_read(&mut det, t);
    assert_eq!(rwlock.write(&mut det, Some(t)).unwrap_err(), Error::RecursiveLock);
    assert!(matches!(rwlock.read(&mut det, Some(t)), Ok(Attempt::Acquired)));
    rwlock.release_read(&mut det, t);

    rwlock.release_read(&mut det, t);

    assert!(matches!(rwlock.write(&mut det, Some(t)), Ok(Attempt::Acquired)));

    assert_eq!(rwlock.read(&mut det, Some(t)).unwrap_err(), Error::RecursiveLock);
    assert_eq!(rwlock.write(&mut det, Some(t)).unwrap_err(), Error::RecursiveLock);

    rwlock.release_write(&mut det, t);

    assert!(matches!(rwlock.read(&mut det, Some(t)), Ok(Attempt::Acquired)));
    rwlock.release_read(&mut det, t);
    assert!(matches!(rwlock.write(&mut det, Some(t)), Ok(Attempt::Acquired)));
    rwlock.release_write(&mut det, t);
}

#[test]
fn mutex_can_keep_lock_across_await_point() {
    let mut det = DeadlockDetector::new();
    let t1 = scoped(&mut det, "test");
    let t2 = scoped(&mut det, "test");
    let mut mutex = SyncMutex::new((), "test".to_string(), &mut det);

    assert!(matches!(mutex.lock(&mut det, Some(t1)), Ok(Attempt::Acquired)));
    assert!(matches!(mutex.lock(&mut det, Some(t2)), Ok(Attempt::MustWait)));
    mutex.unlock(&mut det, t1);
    mutex.lock_granted(&mut det, t2);
    assert_eq!(mutex.owner(), Some(t2));
    mutex.unlock(&mut det, t2);
}

#[test]
fn mutex_recursive_call_returns_an_error() {
    let mut det = DeadlockDetector::new();
    let t = scoped(&mut det, "test");
    let mut mutex = SyncMutex::new((), "test".to_string(), &mut det);

    assert!(matches!(mutex.lock(&mut det, Some(t)), Ok(Attempt::Acquired)));
    assert!(mutex.lock(&mut det, Some(t)).is_err());
    mutex.unlock(&mut det, t);
}

#[test]
fn rwlock_can_keep_lock_across_await_point() {
    let mut det = DeadlockDetector::new();
    let t1 = scoped(&mut det, "test");
    let t2 = scoped(&mut det, "test");
    let mut rwlock = SyncRwLock::new((), "test".to_string(), &mut det);

    assert!(matches!(rwlock.write(&mut det, Some(t1)), Ok(Attempt::Acquired)));
    assert!(matches!(rwlock.read(&mut det, Some(t2)), Ok(Attempt::MustWait)));
    rwlock.release_write(&mut det, t1);
    rwlock.read_granted(&mut det, t2);
    assert_eq!(rwlock.reader_count(t2), 1);
    rwlock.release_read(&mut det, t2);
}

#[test]
fn rwlock_recursive_call_returns_an_error() {
    let mut det = DeadlockDetector::new();
    let t = scoped(&mut det, "test");
    let mut rwlock = SyncRwLock::new((), "test".to_string(), &mut det);

    assert!(matches!(rwlock.read(&mut det, Some(t)), Ok(Attempt::Acquired)));

    assert!(matches!(rwlock.read(&mut det, Some(t)), Ok(Attempt::Acquired)));
    rwlock.release_read(&mut det, t);
    assert_eq!(rwlock.write(&mut det, Some(t)).unwrap_err(), Error::RecursiveLock);
    assert!(matches!(rwlock.read(&mut det, Some(t)), Ok(Attempt::Acquired)));
    rwlock.release_read(&mut det, t);

    rwlock.release_read(&mut det, t);

    assert!(matches!(rwlock.write(&mut det, Some(t)), Ok(Attempt::Acquired)));
    assert_eq!(rwlock.read(&mut det, Some(t)).unwrap_err(), Error::RecursiveLock);
    assert_eq!(rwlock.write(&mut det, Some(t)).unwrap_err(), Error::RecursiveLock);
    rwlock.release_write(&mut det, t);

    assert!(matches!(rwlock.read(&mut det, Some(t)), Ok(Attempt::Acquired)));
    rwlock.release_read(&mut det, t);
    assert!(matches!(rwlock.write(&mut det, Some(t)), Ok(Attempt::Acquired)));
    rwlock.release_write(&mut det, t);
}

#[test]
fn sync_lock_timeout_under_async() {
    let mut det = DeadlockDetector::new();
    let ta = scoped(&mut det, "task_a");
    let tb = scoped(&mut det, "task_b");
    let mut rwlock = SyncRwLock::new((), "held".to_string(), &mut det);

    // A holds the write; B's read from an asynchronous context blocks
    // boundedly, and the driver reports the expiry.
    assert!(matches!(rwlock.write(&mut det, Some(ta)), Ok(Attempt::Acquired)));
    assert!(matches!(rwlock.read(&mut det, Some(tb)), Ok(Attempt::MustWait)));
    let err = rwlock.timed_out(&mut det, tb);
    assert_eq!(err, Error::SyncLockTimeout);

    // B's task context is left clean.
    assert_eq!(det.task_awaiting(tb), 0);
    assert!(!det.has_lock_held(tb));
    rwlock.release_write(&mut det, ta);
}

#[test]
fn mutex_lock_timeout_leaves_context_clean() {
    let mut det = DeadlockDetector::new();
    let ta = scoped(&mut det, "task_a");
    let tb = scoped(&mut det, "task_b");
    let mut mutex = SyncMutex::new((), "held".to_string(), &mut det);

    assert!(matches!(mutex.lock(&mut det, Some(ta)), Ok(Attempt::Acquired)));
    assert!(matches!(mutex.lock(&mut det, Some(tb)), Ok(Attempt::MustWait)));
    assert_eq!(mutex.lock_timed_out(&mut det, tb), Error::SyncLockTimeout);
    assert_eq!(det.task_awaiting(tb), 0);
    mutex.unlock(&mut det, ta);
}

#[test]
fn guarded_locks_refuse_work_outside_scope() {
    let mut det = DeadlockDetector::new();
    let mut mutex = AsyncMutex::new((), "m".to_string(), &mut det);
    let mut rwlock = AsyncRwLock::new((), "r".to_string(), &mut det);
    let mut smutex = SyncMutex::new((), "sm".to_string(), &mut det);
    let mut srwlock = SyncRwLock::new((), "sr".to_string(), &mut det);

    assert_eq!(mutex.lock(&mut det, None).unwrap_err(), Error::NotDeadlockCheckFuture);
    assert_eq!(rwlock.read(&mut det, None).unwrap_err(), Error::NotDeadlockCheckFuture);
    assert_eq!(rwlock.write(&mut det, None).unwrap_err(), Error::NotDeadlockCheckFuture);
    assert_eq!(smutex.lock(&mut det, None).unwrap_err(), Error::NotDeadlockCheckFuture);
    assert_eq!(srwlock.read(&mut det, None).unwrap_err(), Error::NotDeadlockCheckFuture);
    assert_eq!(srwlock.write(&mut det, None).unwrap_err(), Error::NotDeadlockCheckFuture);

    // Nothing was recorded: the detector still knows no task and no id
    // was handed out.
    assert_eq!(det.task_count(), 0);
}
