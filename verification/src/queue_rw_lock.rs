use vstd::prelude::*;

use crate::counting::{count_matching, lemma_count_positive};
use crate::deadlock::{DeadlockDetector, DetectorView};
use crate::error::Error;
use crate::primitives::lock_data::{holder_is, LockData};
use crate::primitives::task::HeldLock;
use crate::primitives::ops::Ops;

verus! {

/// The outcome of a guarded acquisition attempt: either the lock was
/// granted on the spot, or the caller must suspend on the underlying
/// primitive and report the grant back afterwards.
#[derive(Clone, Copy, Debug, PartialEq, Eq, Structural)]
pub enum Attempt {
    /// The fast path succeeded; the hold is recorded.
    Acquired,
    /// The primitive was busy; a wait is recorded and the caller must
    /// suspend, then report the grant (or give the wait up).
    MustWait,
}

/// The abstract state of a queue-staged reader/writer lock: the guarded
/// value, the tasks holding plain read shares, the one task in the queue
/// stage (holding the queue ticket plus a read share), and the one task
/// holding the exclusive write (which also retains the queue stage).
#[verifier::ext_equal]
pub struct QueueRwLockView<T> {
    /// The handle of this lock's descriptor in the deadlock detector.
    pub lock: usize,
    /// The guarded value.
    pub value: T,
    /// Tasks holding plain read shares, one entry per share.
    pub readers: Seq<usize>,
    /// The task in the queue stage, if any.
    pub queuer: Option<usize>,
    /// The task holding the exclusive write, if any.
    pub writer: Option<usize>,
}

impl<T> QueueRwLockView<T> {
    /// How many plain read shares task `t` holds.
    pub open spec fn reader_count(self, t: usize) -> nat {
        count_matching(self.readers, holder_is(t))
    }

    /// Whether task `t` is in the queue stage.
    pub open spec fn holds_queue(self, t: usize) -> bool {
        self.queuer == Some(t)
    }

    /// Whether task `t` holds the exclusive write.
    pub open spec fn holds_write(self, t: usize) -> bool {
        self.writer == Some(t)
    }

    /// Whether task `t` holds the lock in any mode.
    pub open spec fn holds_any(self, t: usize) -> bool {
        self.reader_count(t) > 0 || self.holds_queue(t) || self.holds_write(t)
    }

    /// Whether the queue stage is free: no queue ticket is out and no
    /// writer retains it.
    pub open spec fn queue_stage_free(self) -> bool {
        self.queuer is None && self.writer is None
    }

    /// The state machine invariant: the exclusive write coexists with no
    /// read share and no queue ticket, and the queue stage has at most
    /// one occupant (a queuer or a writer, never both).
    pub open spec fn wf(self) -> bool {
        &&& self.writer is Some ==> self.readers.len() == 0 && self.queuer is None
    }
}

/// A reader/writer lock with a writer-queue stage.
///
/// Besides shared reads and the exclusive write, a task may hold the
/// *queue ticket*: it still shares a read view with other readers, but it
/// is the only task allowed to proceed to the exclusive write, so it can
/// prepare the write under a consistent read view while keeping the
/// exclusive section short.
///
/// The state machine is driven synchronously: acquisitions either succeed
/// on the spot (`Attempt::Acquired`) or tell the caller to suspend on the
/// underlying primitive (`Attempt::MustWait`) and report the grant back.
/// Every acquisition first consults the deadlock detector.
pub struct QueueRwLock<T> {
    lock: usize,
    value: T,
    readers: Vec<usize>,
    queuer: Option<usize>,
    writer: Option<usize>,
}

impl<T> View for QueueRwLock<T> {
    type V = QueueRwLockView<T>;

    closed spec fn view(&self) -> QueueRwLockView<T> {
        QueueRwLockView {
            lock: self.lock,
            value: self.value,
            readers: self.readers@,
            queuer: self.queuer,
            writer: self.writer,
        }
    }
}

impl<T> QueueRwLock<T> {
    /// Creates an unlocked `QueueRwLock` guarding `value`, registering
    /// its descriptor under `lock_name` with the detector.
    pub fn new(value: T, lock_name: String, det: &mut DeadlockDetector) -> (r: QueueRwLock<T>)
        requires
            old(det)@.wf(),
        ensures
            final(det)@.wf(),
            r@.lock == old(det)@.locks.len(),
            final(det)@.valid_lock(r@.lock as int),
            r@.value == value,
            r@.readers == Seq::<usize>::empty(),
            r@.queuer is None,
            r@.writer is None,
            r@.wf(),
            final(det)@ == (DetectorView {
                locks: old(det)@.locks.push(
                    crate::primitives::lock_data::LockDataView {
                        lock_id: 0,
                        name: lock_name@,
                        holders: Seq::<usize>::empty(),
                    },
                ),
                ..old(det)@
            }),
    {
        let ghost name0 = lock_name@;
        let data = LockData::new(lock_name);
        let lock = det.register_lock(data);
        let r = QueueRwLock { lock, value, readers: Vec::new(), queuer: None, writer: None };
        proof {
            assert(r@.readers =~= Seq::<usize>::empty());
        }
        r
    }

    /// Returns a mutable reference to the guarded value.  Since this
    /// borrows the lock mutably, no locking needs to take place: the
    /// borrow statically guarantees exclusive access.
    pub fn get_mut(&mut self) -> (r: &mut T)
        ensures
            *r == old(self)@.value,
            final(self)@ == (QueueRwLockView { value: *final(r), ..old(self)@ }),
    {
        &mut self.value
    }

    /// Consumes the lock, returning the guarded value.
    pub fn into_inner(self) -> (r: T)
        ensures
            r == self@.value,
    {
        self.value
    }

    /// A shared view of the guarded value.  Sound for any task holding a
    /// read share or the queue ticket; exclusive access is not needed.
    pub fn value(&self) -> (r: &T)
        ensures
            *r == self@.value,
    {
        &self.value
    }

    /// Replaces the guarded value; only the task holding the exclusive
    /// write may do so.
    pub fn set_value(&mut self, t: usize, value: T)
        requires
            old(self)@.holds_write(t),
        ensures
            final(self)@ == (QueueRwLockView { value, ..old(self)@ }),
    {
        self.value = value;
    }

    /// The task currently in the queue stage, if any.
    pub fn queuer(&self) -> (r: Option<usize>)
        ensures
            r == self@.queuer,
    {
        self.queuer
    }

    /// The task currently holding the exclusive write, if any.
    pub fn writer(&self) -> (r: Option<usize>)
        ensures
            r == self@.writer,
    {
        self.writer
    }

    /// How many plain read shares task `t` holds.
    pub fn reader_count(&self, t: usize) -> (r: usize)
        ensures
            r == self@.reader_count(t),
    {
        let n = self.readers.len();
        let mut i: usize = 0;
        let mut c: usize = 0;
        while i < n
            invariant
                n == self.readers@.len(),
                0 <= i <= n,
                c == count_matching(self.readers@.take(i as int), holder_is(t)),
                c <= i,
            decreases n - i,
        {
            proof {
                assert(self.readers@.take(i + 1).drop_last() =~= self.readers@.take(i as int));
                assert(self.readers@.take(i + 1).last() == self.readers@[i as int]);
            }
            if self.readers[i] == t {
                c += 1;
            }
            i += 1;
        }
        proof {
            assert(self.readers@.take(n as int) =~= self.readers@);
        }
        c
    }

    /// Enqueues task `scope` to gain access to the write: the detector
    /// check, then the queue ticket — the queue stage first, then a read
    /// share, which is what keeps at most one task in the queue stage at
    /// a time.  Outside a scope nothing happens and the attempt returns
    /// `NotDeadlockCheckFuture`.  On `MustWait` the caller suspends on
    /// the queue stage and the read share, then reports the grant through
    /// `queue_granted` (or gives the wait up with `cancel_wait`).
    pub fn queue(&mut self, det: &mut DeadlockDetector, scope: Option<usize>) -> (r: Result<
        Attempt,
        Error,
    >)
        requires
            old(self)@.wf(),
            old(det)@.wf(),
            old(det)@.valid_lock(old(self)@.lock as int),
            scope matches Some(t) ==> old(det)@.valid_task(t as int),
            old(det)@.next_id < u64::MAX,
        ensures
            final(self)@.wf(),
            final(det)@.wf(),
            final(self)@.lock == old(self)@.lock,
            final(self)@.value == old(self)@.value,
            scope is None ==> r == Err::<Attempt, Error>(Error::NotDeadlockCheckFuture)
                && final(self)@ == old(self)@ && final(det)@ == old(det)@,
            scope matches Some(t) ==> ({
                let l = old(self)@.lock as int;
                let d1 = old(det)@.with_id_ensured(l);
                let chk = d1.check_result(t as int, l, Ops::Queue);
                &&& (chk matches Err(e) ==> r == Err::<Attempt, Error>(e) && final(det)@ == d1
                    && final(self)@ == old(self)@)
                &&& (chk is Ok && old(self)@.queue_stage_free() ==> r == Ok::<Attempt, Error>(
                    Attempt::Acquired,
                ) && final(det)@ == d1.add_hold(t as int, l, Ops::Queue) && final(self)@ == (
                QueueRwLockView { queuer: Some(t), ..old(self)@ }))
                &&& (chk is Ok && !old(self)@.queue_stage_free() && d1.tasks[t as int].awaiting != 0
                    ==> r == Err::<Attempt, Error>(Error::DeadlockDetected) && final(det)@ == d1
                    && final(self)@ == old(self)@)
                &&& (chk is Ok && !old(self)@.queue_stage_free() && d1.tasks[t as int].awaiting == 0
                    ==> r == Ok::<Attempt, Error>(Attempt::MustWait) && final(det)@ == d1.set_wait(
                    t as int,
                    d1.locks[l].lock_id,
                ) && final(self)@ == old(self)@)
            }),
    {
        let t = match scope {
            None => {
                return Err(Error::not_deadlock_check_future(()));
            },
            Some(t) => t,
        };
        let l = self.lock;
        det.ensure_lock_id(l);
        if self.queuer.is_none() && self.writer.is_none() {
            match det.acquire_fast(t, l, Ops::Queue) {
                Err(e) => {
                    proof {
                        assert(final(self)@ =~= old(self)@);
                    }
                    Err(e)
                },
                Ok(()) => {
                    self.queuer = Some(t);
                    proof {
                        assert(final(self)@ =~= (QueueRwLockView { queuer: Some(t), ..old(self)@ }));
                    }
                    Ok(Attempt::Acquired)
                },
            }
        } else {
            match det.start_wait(t, l, Ops::Queue) {
                Err(e) => {
                    proof {
                        assert(final(self)@ =~= old(self)@);
                    }
                    Err(e)
                },
                Ok(()) => {
                    proof {
                        assert(final(self)@ =~= old(self)@);
                    }
                    Ok(Attempt::MustWait)
                },
            }
        }
    }

    /// Reports that the suspension after a `queue` attempt was granted:
    /// the task obtained the queue stage and a read share.  The wait
    /// record becomes the hold record, and the task enters the queue
    /// stage.
    pub fn queue_granted(&mut self, det: &mut DeadlockDetector, t: usize)
        requires
            old(self)@.wf(),
            old(det)@.wf(),
            old(det)@.valid_lock(old(self)@.lock as int),
            old(det)@.valid_task(t as int),
            old(det)@.locks[old(self)@.lock as int].lock_id != 0,
            old(det)@.acquire_compatible(t as int, old(self)@.lock as int, Ops::Queue),
            old(self)@.queue_stage_free(),
        ensures
            final(self)@.wf(),
            final(det)@.wf(),
            final(det)@ == old(det)@.add_hold(t as int, old(self)@.lock as int, Ops::Queue),
            final(self)@ == (QueueRwLockView { queuer: Some(t), ..old(self)@ }),
    {
        det.grant(t, self.lock, Ops::Queue);
        self.queuer = Some(t);
        proof {
            assert(final(self)@ =~= (QueueRwLockView { queuer: Some(t), ..old(self)@ }));
        }
    }

    /// Locks this lock with shared read access for task `scope`: the
    /// detector check, then a read share.  Outside a scope nothing
    /// happens and the attempt returns `NotDeadlockCheckFuture`.  On
    /// `MustWait` the caller suspends on the read side, then reports the
    /// grant through `read_granted` (or gives the wait up).
    pub fn read(&mut self, det: &mut DeadlockDetector, scope: Option<usize>) -> (r: Result<
        Attempt,
        Error,
    >)
        requires
            old(self)@.wf(),
            old(det)@.wf(),
            old(det)@.valid_lock(old(self)@.lock as int),
            scope matches Some(t) ==> old(det)@.valid_task(t as int),
            old(det)@.next_id < u64::MAX,
        ensures
            final(self)@.wf(),
            final(det)@.wf(),
            final(self)@.lock == old(self)@.lock,
            final(self)@.value == old(self)@.value,
            scope is None ==> r == Err::<Attempt, Error>(Error::NotDeadlockCheckFuture)
                && final(self)@ == old(self)@ && final(det)@ == old(det)@,
            scope matches Some(t) ==> ({
                let l = old(self)@.lock as int;
                let d1 = old(det)@.with_id_ensured(l);
                let chk = d1.check_result(t as int, l, Ops::Read);
                &&& (chk matches Err(e) ==> r == Err::<Attempt, Error>(e) && final(det)@ == d1
                    && final(self)@ == old(self)@)
                &&& (chk is Ok && old(self)@.writer is None ==> r == Ok::<Attempt, Error>(
                    Attempt::Acquired,
                ) && final(det)@ == d1.add_hold(t as int, l, Ops::Read) && final(self)@ == (
                QueueRwLockView { readers: old(self)@.readers.push(t), ..old(self)@ }))
                &&& (chk is Ok && old(self)@.writer is Some && d1.tasks[t as int].awaiting != 0
                    ==> r == Err::<Attempt, Error>(Error::DeadlockDetected) && final(det)@ == d1
                    && final(self)@ == old(self)@)
                &&& (chk is Ok && old(self)@.writer is Some && d1.tasks[t as int].awaiting == 0
                    ==> r == Ok::<Attempt, Error>(Attempt::MustWait) && final(det)@ == d1.set_wait(
                    t as int,
                    d1.locks[l].lock_id,
                ) && final(self)@ == old(self)@)
            }),
    {
        let t = match scope {
            None => {
                return Err(Error::not_deadlock_check_future(()));
            },
            Some(t) => t,
        };
        let l = self.lock;
        det.ensure_lock_id(l);
        if self.writer.is_none() {
            match det.acquire_fast(t, l, Ops::Read) {
                Err(e) => {
                    proof {
                        assert(final(self)@ =~= old(self)@);
                    }
                    Err(e)
                },
                Ok(()) => {
                    self.readers.push(t);
                    proof {
                        assert(final(self)@ =~= (QueueRwLockView {
                            readers: old(self)@.readers.push(t),
                            ..old(self)@
                        }));
                    }
                    Ok(Attempt::Acquired)
                },
            }
        } else {
            match det.start_wait(t, l, Ops::Read) {
                Err(e) => {
                    proof {
                        assert(final(self)@ =~= old(self)@);
                    }
                    Err(e)
                },
                Ok(()) => {
                    proof {
                        assert(final(self)@ =~= old(self)@);
                    }
                    Ok(Attempt::MustWait)
                },
            }
        }
    }

    /// Reports that the suspension after a `read` attempt was granted:
    /// the task obtained a read share.
    pub fn read_granted(&mut self, det: &mut DeadlockDetector, t: usize)
        requires
            old(self)@.wf(),
            old(det)@.wf(),
            old(det)@.valid_lock(old(self)@.lock as int),
            old(det)@.valid_task(t as int),
            old(det)@.locks[old(self)@.lock as int].lock_id != 0,
            old(det)@.acquire_compatible(t as int, old(self)@.lock as int, Ops::Read),
            old(self)@.writer is None,
        ensures
            final(self)@.wf(),
            final(det)@.wf(),
            final(det)@ == old(det)@.add_hold(t as int, old(self)@.lock as int, Ops::Read),
            final(self)@ == (QueueRwLockView { readers: old(self)@.readers.push(t), ..old(self)@ }),
    {
        det.grant(t, self.lock, Ops::Read);
        self.readers.push(t);
        proof {
            assert(final(self)@ =~= (QueueRwLockView {
                readers: old(self)@.readers.push(t),
                ..old(self)@
            }));
        }
    }

    /// Attempts to take the queue ticket without waiting.  Within a
    /// scope, the ticket is refused exactly when the queue stage is
    /// occupied or a writer owns the lock (or, defensively, when the
    /// request would re-enter the lock in an incompatible mode, which the
    /// queue-stage conditions already rule out for holds taken through
    /// this lock).  Outside a scope it is always refused, and nothing is
    /// recorded.
    pub fn try_queue(&mut self, det: &mut DeadlockDetector, scope: Option<usize>) -> (r: bool)
        requires
            old(self)@.wf(),
            old(det)@.wf(),
            old(det)@.valid_lock(old(self)@.lock as int),
            scope matches Some(t) ==> old(det)@.valid_task(t as int),
            old(det)@.next_id < u64::MAX,
        ensures
            final(self)@.wf(),
            final(det)@.wf(),
            final(self)@.lock == old(self)@.lock,
            final(self)@.value == old(self)@.value,
            scope is None ==> !r && final(self)@ == old(self)@ && final(det)@ == old(det)@,
            !old(self)@.queue_stage_free() ==> !r && final(self)@ == old(self)@ && final(det)@
                == old(det)@,
            scope matches Some(t) ==> ({
                let l = old(self)@.lock as int;
                let d1 = old(det)@.with_id_ensured(l);
                &&& (old(self)@.queue_stage_free() && d1.acquire_compatible(t as int, l, Ops::Queue)
                    ==> r && final(det)@ == d1.add_hold(t as int, l, Ops::Queue) && final(self)@
                    == (QueueRwLockView { queuer: Some(t), ..old(self)@ }))
                &&& (old(self)@.queue_stage_free() && !d1.acquire_compatible(t as int, l, Ops::Queue)
                    ==> !r && final(det)@ == d1 && final(self)@ == old(self)@)
            }),
    {
        let t = match scope {
            None => {
                return false;
            },
            Some(t) => t,
        };
        if !(self.queuer.is_none() && self.writer.is_none()) {
            return false;
        }
        let l = self.lock;
        let id = det.ensure_lock_id(l);
        if det.check_compatible(t, l, Ops::Queue) {
            det.grant(t, l, Ops::Queue);
            self.queuer = Some(t);
            proof {
                assert(final(self)@ =~= (QueueRwLockView { queuer: Some(t), ..old(self)@ }));
            }
            true
        } else {
            proof {
                assert(final(self)@ =~= old(self)@);
            }
            false
        }
    }

    /// Transitions task `scope` from the queue stage to the exclusive
    /// write.  The queue-stage hold (with its read share) is released
    /// first; then, if no other read share is out, the write is taken on
    /// the spot and the queue stage is handed back — only after the write
    /// is held, so no new queuer can slip a read share in between.  If
    /// read shares remain, a wait is recorded and the task keeps the
    /// queue stage while it suspends (`MustWait`); the caller reports the
    /// grant through `write_granted`.  On an error the queue stage is
    /// handed back with nothing acquired.
    pub fn write(&mut self, det: &mut DeadlockDetector, scope: Option<usize>) -> (r: Result<
        Attempt,
        Error,
    >)
        requires
            old(self)@.wf(),
            old(det)@.wf(),
            old(det)@.valid_lock(old(self)@.lock as int),
            old(det)@.locks[old(self)@.lock as int].lock_id != 0,
            scope matches Some(t) ==> old(det)@.valid_task(t as int) && old(self)@.holds_queue(t),
        ensures
            final(self)@.wf(),
            final(det)@.wf(),
            final(self)@.lock == old(self)@.lock,
            final(self)@.value == old(self)@.value,
            scope is None ==> r == Err::<Attempt, Error>(Error::NotDeadlockCheckFuture)
                && final(self)@ == old(self)@ && final(det)@ == old(det)@,
            scope matches Some(t) ==> ({
                let l = old(self)@.lock as int;
                let d2 = old(det)@.spec_release(t as int, l, Ops::Queue);
                let chk = d2.check_result(t as int, l, Ops::Write);
                &&& (chk matches Err(e) ==> r == Err::<Attempt, Error>(e) && final(det)@ == d2
                    && final(self)@ == (QueueRwLockView { queuer: None, ..old(self)@ }))
                &&& (chk is Ok && old(self)@.readers.len() == 0 ==> r == Ok::<Attempt, Error>(
                    Attempt::Acquired,
                ) && final(det)@ == d2.add_hold(t as int, l, Ops::Write) && final(self)@ == (
                QueueRwLockView { queuer: None, writer: Some(t), ..old(self)@ }))
                &&& (chk is Ok && old(self)@.readers.len() > 0 && d2.tasks[t as int].awaiting != 0
                    ==> r == Err::<Attempt, Error>(Error::DeadlockDetected) && final(det)@ == d2
                    && final(self)@ == (QueueRwLockView { queuer: None, ..old(self)@ }))
                &&& (chk is Ok && old(self)@.readers.len() > 0 && d2.tasks[t as int].awaiting == 0
                    ==> r == Ok::<Attempt, Error>(Attempt::MustWait) && final(det)@ == d2.set_wait(
                    t as int,
                    d2.locks[l].lock_id,
                ) && final(self)@ == old(self)@)
            }),
    {
        let t = match scope {
            None => {
                return Err(Error::not_deadlock_check_future(()));
            },
            Some(t) => t,
        };
        let l = self.lock;
        // The queue-stage hold and its read share are given up before the
        // exclusive write is requested.
        self.release_bookkeeping(det, t, Ops::Queue);
        if self.readers.len() == 0 {
            match det.acquire_fast(t, l, Ops::Write) {
                Err(e) => {
                    self.queuer = None;
                    proof {
                        assert(final(self)@ =~= (QueueRwLockView { queuer: None, ..old(self)@ }));
                    }
                    Err(e)
                },
                Ok(()) => {
                    // The queue stage is handed back only now, with the
                    // write already held.
                    self.queuer = None;
                    self.writer = Some(t);
                    proof {
                        assert(final(self)@ =~= (QueueRwLockView {
                            queuer: None,
                            writer: Some(t),
                            ..old(self)@
                        }));
                    }
                    Ok(Attempt::Acquired)
                },
            }
        } else {
            match det.start_wait(t, l, Ops::Write) {
                Err(e) => {
                    self.queuer = None;
                    proof {
                        assert(final(self)@ =~= (QueueRwLockView { queuer: None, ..old(self)@ }));
                    }
                    Err(e)
                },
                Ok(()) => {
                    // The task keeps the queue stage while it waits for
                    // the remaining read shares to drain.
                    proof {
                        assert(final(self)@ =~= old(self)@);
                    }
                    Ok(Attempt::MustWait)
                },
            }
        }
    }

    /// Releases the detector bookkeeping of one hold of this lock by
    /// task `t` in mode `op`, leaving the primitive state untouched.
    fn release_bookkeeping(&self, det: &mut DeadlockDetector, t: usize, op: Ops)
        requires
            old(det)@.wf(),
            old(det)@.valid_lock(self@.lock as int),
            old(det)@.valid_task(t as int),
        ensures
            final(det)@.wf(),
            final(det)@ == old(det)@.spec_release(t as int, self@.lock as int, op),
    {
        let _ = det.release(t, self.lock, op);
    }

    /// Reports that the suspension after a `write` attempt was granted:
    /// the remaining read shares drained and the task obtained the
    /// exclusive write.  The queue stage is handed back in the same step.
    pub fn write_granted(&mut self, det: &mut DeadlockDetector, t: usize)
        requires
            old(self)@.wf(),
            old(det)@.wf(),
            old(det)@.valid_lock(old(self)@.lock as int),
            old(det)@.valid_task(t as int),
            old(det)@.locks[old(self)@.lock as int].lock_id != 0,
            old(det)@.acquire_compatible(t as int, old(self)@.lock as int, Ops::Write),
            old(self)@.holds_queue(t),
            old(self)@.readers.len() == 0,
        ensures
            final(self)@.wf(),
            final(det)@.wf(),
            final(det)@ == old(det)@.add_hold(t as int, old(self)@.lock as int, Ops::Write),
            final(self)@ == (QueueRwLockView { queuer: None, writer: Some(t), ..old(self)@ }),
    {
        det.grant(t, self.lock, Ops::Write);
        self.queuer = None;
        self.writer = Some(t);
        proof {
            assert(final(self)@ =~= (QueueRwLockView {
                queuer: None,
                writer: Some(t),
                ..old(self)@
            }));
        }
    }

    /// Releases one read share held by task `t`: the share leaves the
    /// state machine and the detector bookkeeping is unwound.
    pub fn release_read(&mut self, det: &mut DeadlockDetector, t: usize)
        requires
            old(self)@.wf(),
            old(det)@.wf(),
            old(det)@.valid_lock(old(self)@.lock as int),
            old(det)@.valid_task(t as int),
            old(self)@.reader_count(t) > 0,
        ensures
            final(self)@.wf(),
            final(det)@.wf(),
            final(det)@ == old(det)@.spec_release(t as int, old(self)@.lock as int, Ops::Read),
            final(self)@ == (QueueRwLockView {
                readers: crate::counting::remove_first_matching(old(self)@.readers, holder_is(t)),
                ..old(self)@
            }),
            final(self)@.reader_count(t) == old(self)@.reader_count(t) - 1,
    {
        self.release_bookkeeping(det, t, Ops::Read);
        let n = self.readers.len();
        let mut i: usize = 0;
        proof {
            lemma_count_positive(self.readers@, holder_is(t));
            assert(self@.writer is None);
        }
        while i < n
            invariant
                self@ == old(self)@,
                self@.writer is None,
                det@.wf(),
                det@ == old(det)@.spec_release(t as int, self@.lock as int, Ops::Read),
                n == self.readers@.len(),
                0 <= i <= n,
                exists|k: int| i <= k < n && self.readers@[k] == t,
                forall|j: int| 0 <= j < i ==> self.readers@[j] != t,
            decreases n - i,
        {
            if self.readers[i] == t {
                proof {
                    crate::counting::lemma_remove_first_is_remove_at(
                        self.readers@,
                        holder_is(t),
                        i as int,
                    );
                    crate::counting::lemma_count_remove(self.readers@, holder_is(t), i as int);
                }
                self.readers.remove(i);
                proof {
                    assert(final(self)@ =~= (QueueRwLockView {
                        readers: crate::counting::remove_first_matching(
                            old(self)@.readers,
                            holder_is(t),
                        ),
                        ..old(self)@
                    }));
                }
                return ;
            }
            i += 1;
        }
        proof {
            assert(false);
        }
    }

    /// Releases the queue ticket held by task `t` without writing: the
    /// queue stage opens and the detector bookkeeping is unwound.
    pub fn release_queue(&mut self, det: &mut DeadlockDetector, t: usize)
        requires
            old(self)@.wf(),
            old(det)@.wf(),
            old(det)@.valid_lock(old(self)@.lock as int),
            old(det)@.valid_task(t as int),
            old(self)@.holds_queue(t),
        ensures
            final(self)@.wf(),
            final(det)@.wf(),
            final(det)@ == old(det)@.spec_release(t as int, old(self)@.lock as int, Ops::Queue),
            final(self)@ == (QueueRwLockView { queuer: None, ..old(self)@ }),
    {
        self.release_bookkeeping(det, t, Ops::Queue);
        self.queuer = None;
        proof {
            assert(final(self)@ =~= (QueueRwLockView { queuer: None, ..old(self)@ }));
        }
    }

    /// Releases the exclusive write held by task `t`: the write and the
    /// queue stage open together and the detector bookkeeping is unwound.
    pub fn release_write(&mut self, det: &mut DeadlockDetector, t: usize)
        requires
            old(self)@.wf(),
            old(det)@.wf(),
            old(det)@.valid_lock(old(self)@.lock as int),
            old(det)@.valid_task(t as int),
            old(self)@.holds_write(t),
        ensures
            final(self)@.wf(),
            final(det)@.wf(),
            final(det)@ == old(det)@.spec_release(t as int, old(self)@.lock as int, Ops::Write),
            final(self)@ == (QueueRwLockView { writer: None, ..old(self)@ }),
    {
        self.release_bookkeeping(det, t, Ops::Write);
        self.writer = None;
        proof {
            assert(final(self)@ =~= (QueueRwLockView { writer: None, ..old(self)@ }));
        }
    }
}

/// The coupling between a queue lock's stage and the detector's held
/// entries, which every operation of this lock preserves: an entry for
/// this lock held in `Queue` mode belongs to the task in the queue
/// stage, one in `Write` mode to the writer, and every other entry is a
/// read share.
pub open spec fn in_sync<T>(v: QueueRwLockView<T>, d: DetectorView) -> bool {
    forall|t2: usize, i: int|
        (t2 as int) < d.tasks.len() && 0 <= i < d.tasks[t2 as int].held.len()
            && (#[trigger] d.tasks[t2 as int].held[i]).lock_id == d.locks[v.lock as int].lock_id
            ==> (d.tasks[t2 as int].held[i].op == Ops::Read || (d.tasks[t2 as int].held[i].op
            == Ops::Queue && v.queuer == Some(t2)) || (d.tasks[t2 as int].held[i].op == Ops::Write
            && v.writer == Some(t2)))
}

/// Under the stage–detector coupling, the defensive refusal in
/// `try_queue` cannot fire: with the queue stage free, every hold any
/// task has on this lock is a read share, and a read share is
/// compatible with the queue ticket.  So, within a scope, `try_queue`
/// is refused exactly when the queue stage is occupied or a writer owns
/// the lock.
pub proof fn lemma_stage_free_implies_compatible<T>(
    v: QueueRwLockView<T>,
    d: DetectorView,
    t: usize,
)
    requires
        d.valid_task(t as int),
        d.valid_lock(v.lock as int),
        in_sync(v, d),
        v.queue_stage_free(),
    ensures
        d.acquire_compatible(t as int, v.lock as int, Ops::Queue),
{
    let held = d.tasks[t as int].held;
    let id = d.locks[v.lock as int].lock_id;
    assert forall|i: int|
        0 <= i < held.len() && (#[trigger] held[i]).lock_id == id implies held[i].op.spec_compatible(
        Ops::Queue,
    ) by {
        assert(d.tasks[t as int].held[i].lock_id == id);
        assert(held[i].op == Ops::Read);
    }
}

/// The coupling survives a wait-record change or a lazy id assignment:
/// neither touches a held set, and a freshly assigned id matches no
/// existing entry.  Together with `lemma_in_sync_add_hold` and
/// `lemma_in_sync_release` this covers every transition the lock's
/// operations perform on the detector.
pub proof fn lemma_in_sync_frame<T>(v: QueueRwLockView<T>, d: DetectorView, d2: DetectorView)
    requires
        in_sync(v, d),
        d.wf(),
        d.valid_lock(v.lock as int),
        d2.tasks.len() >= d.tasks.len(),
        forall|t2: int|
            0 <= t2 < d2.tasks.len() ==> (#[trigger] d2.tasks[t2]).held == (if t2
                < d.tasks.len() {
                d.tasks[t2].held
            } else {
                Seq::<HeldLock>::empty()
            }),
        d2.locks.len() >= d.locks.len(),
        d2.locks[v.lock as int].lock_id == d.locks[v.lock as int].lock_id || (d.locks[v.lock as int].lock_id
            == 0 && d2.locks[v.lock as int].lock_id == d.next_id),
    ensures
        in_sync(v, d2),
{
    let id2 = d2.locks[v.lock as int].lock_id;
    assert forall|t2: usize, i: int|
        (t2 as int) < d2.tasks.len() && 0 <= i < d2.tasks[t2 as int].held.len()
            && (#[trigger] d2.tasks[t2 as int].held[i]).lock_id == id2 implies (d2.tasks[t2 as int].held[i].op
        == Ops::Read || (d2.tasks[t2 as int].held[i].op == Ops::Queue && v.queuer == Some(t2))
        || (d2.tasks[t2 as int].held[i].op == Ops::Write && v.writer == Some(t2))) by {
        assert((t2 as int) < d.tasks.len());
        assert(d2.tasks[t2 as int].held[i] == d.tasks[t2 as int].held[i]);
        if id2 != d.locks[v.lock as int].lock_id {
            // A fresh id matches no recorded entry.
            assert(d.tasks[t2 as int].wf(d.next_id));
            assert(d.tasks[t2 as int].held[i].lock_id < d.next_id);
        }
    }
}

/// Recording a hold keeps the coupling, provided the stage moves with
/// it: a read share changes no stage; the queue ticket goes to a task
/// entering a free stage; the exclusive write goes to the task that
/// held the queue stage alone, with nothing but read shares remaining
/// on the lock.
pub proof fn lemma_in_sync_add_hold<T>(
    v: QueueRwLockView<T>,
    v2: QueueRwLockView<T>,
    d: DetectorView,
    t: usize,
    op: Ops,
)
    requires
        in_sync(v, d),
        d.wf(),
        d.valid_task(t as int),
        d.valid_lock(v.lock as int),
        d.locks[v.lock as int].lock_id != 0,
        v2.lock == v.lock,
        op == Ops::Read ==> v2.queuer == v.queuer && v2.writer == v.writer,
        op == Ops::Queue ==> v.queue_stage_free() && v2.queuer == Some(t) && v2.writer
            == v.writer,
        op == Ops::Write ==> v.writer is None && (v.queuer is None || v.queuer == Some(t))
            && d.tasks[t as int].held_count(d.locks[v.lock as int].lock_id) == 0 && v2.writer
            == Some(t) && v2.queuer is None,
    ensures
        in_sync(v2, d.add_hold(t as int, v.lock as int, op)),
{
    let l = v.lock as int;
    let id = d.locks[l].lock_id;
    let d2 = d.add_hold(t as int, l, op);
    assert(d2.locks[l].lock_id == id);
    assert forall|t2: usize, i: int|
        (t2 as int) < d2.tasks.len() && 0 <= i < d2.tasks[t2 as int].held.len()
            && (#[trigger] d2.tasks[t2 as int].held[i]).lock_id == id implies (d2.tasks[t2 as int].held[i].op
        == Ops::Read || (d2.tasks[t2 as int].held[i].op == Ops::Queue && v2.queuer == Some(t2))
        || (d2.tasks[t2 as int].held[i].op == Ops::Write && v2.writer == Some(t2))) by {
        if t2 == t && i == d.tasks[t as int].held.len() {
            // the new entry: its mode matches the new stage
            assert(d2.tasks[t2 as int].held[i] == (HeldLock { lock_id: id, op }));
        } else {
            // an old entry: in the write case none exists on this lock,
            // and otherwise the old coupling still places it
            assert(d2.tasks[t2 as int].held[i] == d.tasks[t2 as int].held[i]);
            if op == Ops::Write {
                if t2 == t {
                    lemma_count_positive(
                        d.tasks[t as int].held,
                        crate::primitives::task::entry_on(id),
                    );
                    assert(false);
                } else {
                    if d.tasks[t2 as int].held[i].op == Ops::Queue {
                        assert(v.queuer == Some(t2));
                        assert(false);
                    }
                    if d.tasks[t2 as int].held[i].op == Ops::Write {
                        assert(v.writer == Some(t2));
                        assert(false);
                    }
                }
            }
        }
    }
}

/// Releasing a hold keeps the coupling, provided the stage moves with
/// it: giving up the queue ticket or the write opens that stage, and a
/// read share changes no stage.  The detector's conflict-freedom
/// guarantees that no second ticket or write entry can linger after
/// the one released.
pub proof fn lemma_in_sync_release<T>(
    v: QueueRwLockView<T>,
    v2: QueueRwLockView<T>,
    d: DetectorView,
    t: usize,
    op: Ops,
)
    requires
        in_sync(v, d),
        d.wf(),
        d.valid_task(t as int),
        d.valid_lock(v.lock as int),
        v2.lock == v.lock,
        op == Ops::Read ==> v2.queuer == v.queuer && v2.writer == v.writer,
        op == Ops::Queue ==> v.queuer == Some(t) && v2.queuer is None && v2.writer == v.writer,
        op == Ops::Write ==> v.writer == Some(t) && v2.writer is None && v2.queuer == v.queuer,
    ensures
        in_sync(v2, d.spec_release(t as int, v.lock as int, op)),
{
    let l = v.lock as int;
    let id = d.locks[l].lock_id;
    let e = HeldLock { lock_id: id, op };
    let d2 = d.spec_release(t as int, l, op);
    assert(d2.locks[l].lock_id == id);
    let held0 = d.tasks[t as int].held;
    let p = crate::primitives::task::entry_is(e);
    if d.tasks[t as int].entry_count(e) > 0 {
        lemma_count_positive(held0, p);
        lemma_remove_first_keeps_rest(held0, p);
        assert(d2.tasks[t as int].held == crate::counting::remove_first_matching(held0, p));
        assert forall|t2: usize, i: int|
            (t2 as int) < d2.tasks.len() && 0 <= i < d2.tasks[t2 as int].held.len()
                && (#[trigger] d2.tasks[t2 as int].held[i]).lock_id == id implies (d2.tasks[t2 as int].held[i].op
            == Ops::Read || (d2.tasks[t2 as int].held[i].op == Ops::Queue && v2.queuer == Some(t2))
            || (d2.tasks[t2 as int].held[i].op == Ops::Write && v2.writer == Some(t2))) by {
            if t2 == t {
                assert(crate::counting::remove_first_matching(held0, p)[i]
                    == d2.tasks[t2 as int].held[i]);
                let j = choose|j: int|
                    0 <= j < held0.len() && d2.tasks[t2 as int].held[i] == held0[j] && (p(held0[j])
                        ==> exists|k: int| 0 <= k < held0.len() && k != j && p(held0[k]));
                // two queue tickets, or two writes, cannot coexist in one
                // task's held set
                if d2.tasks[t2 as int].held[i].op == Ops::Queue && op == Ops::Queue {
                    assert(held0[j] == e);
                    let k = choose|k: int| 0 <= k < held0.len() && k != j && p(held0[k]);
                    assert(held0[k] == e);
                    assert(d.tasks[t as int].conflict_free());
                    assert(held0[j].op.spec_compatible(held0[k].op));
                    assert(false);
                }
                if d2.tasks[t2 as int].held[i].op == Ops::Write && op == Ops::Write {
                    assert(held0[j] == e);
                    let k = choose|k: int| 0 <= k < held0.len() && k != j && p(held0[k]);
                    assert(held0[k] == e);
                    assert(d.tasks[t as int].conflict_free());
                    assert(held0[j].op.spec_compatible(held0[k].op));
                    assert(false);
                }
                if d2.tasks[t2 as int].held[i].op == Ops::Queue && op != Ops::Queue {
                    assert(d.tasks[t2 as int].held[j] == held0[j]);
                    assert(v.queuer == Some(t2));
                }
                if d2.tasks[t2 as int].held[i].op == Ops::Write && op != Ops::Write {
                    assert(d.tasks[t2 as int].held[j] == held0[j]);
                    assert(v.writer == Some(t2));
                }
            } else {
                assert(d2.tasks[t2 as int].held[i] == d.tasks[t2 as int].held[i]);
                if d.tasks[t2 as int].held[i].op == Ops::Queue {
                    assert(v.queuer == Some(t2));
                }
                if d.tasks[t2 as int].held[i].op == Ops::Write {
                    assert(v.writer == Some(t2));
                }
            }
        }
    } else {
        assert(d2 == d);
        assert forall|t2: usize, i: int|
            (t2 as int) < d2.tasks.len() && 0 <= i < d2.tasks[t2 as int].held.len()
                && (#[trigger] d2.tasks[t2 as int].held[i]).lock_id == id implies (d2.tasks[t2 as int].held[i].op
            == Ops::Read || (d2.tasks[t2 as int].held[i].op == Ops::Queue && v2.queuer == Some(t2))
            || (d2.tasks[t2 as int].held[i].op == Ops::Write && v2.writer == Some(t2))) by {
            if d.tasks[t2 as int].held[i].op == Ops::Queue && op == Ops::Queue && t2 == t {
                // a held ticket would have been the released entry
                assert(p(held0[i]));
                lemma_count_positive(held0, p);
                assert(false);
            }
            if d.tasks[t2 as int].held[i].op == Ops::Write && op == Ops::Write && t2 == t {
                assert(p(held0[i]));
                lemma_count_positive(held0, p);
                assert(false);
            }
        }
    }
}

/// Every element of `remove_first_matching(s, p)` is an element of `s`,
/// and a matching one only survives beside another matching element.
proof fn lemma_remove_first_keeps_rest<A>(s: Seq<A>, p: spec_fn(A) -> bool)
    ensures
        forall|i: int|
            0 <= i < crate::counting::remove_first_matching(s, p).len() ==> exists|j: int|
                0 <= j < s.len() && #[trigger] crate::counting::remove_first_matching(s, p)[i]
                    == s[j] && (p(s[j]) ==> exists|k: int| 0 <= k < s.len() && k != j && p(s[k])),
    decreases s.len(),
{
    let r = crate::counting::remove_first_matching(s, p);
    if s.len() > 0 {
        if p(s.first()) {
            assert(r =~= s.drop_first());
            assert forall|i: int| 0 <= i < r.len() implies exists|j: int|
                0 <= j < s.len() && #[trigger] r[i] == s[j] && (p(s[j]) ==> exists|k: int|
                    0 <= k < s.len() && k != j && p(s[k])) by {
                assert(r[i] == s[i + 1]);
                if p(s[i + 1]) {
                    assert(p(s[0]));
                }
            }
        } else {
            lemma_remove_first_keeps_rest(s.drop_first(), p);
            let rr = crate::counting::remove_first_matching(s.drop_first(), p);
            assert(r =~= seq![s.first()] + rr);
            assert forall|i: int| 0 <= i < r.len() implies exists|j: int|
                0 <= j < s.len() && #[trigger] r[i] == s[j] && (p(s[j]) ==> exists|k: int|
                    0 <= k < s.len() && k != j && p(s[k])) by {
                if i == 0 {
                    assert(r[0] == s[0]);
                    assert(!p(s[0]));
                } else {
                    assert(r[i] == rr[i - 1]);
                    let j0 = choose|j0: int|
                        0 <= j0 < s.drop_first().len() && rr[i - 1] == s.drop_first()[j0] && (p(
                            s.drop_first()[j0],
                        ) ==> exists|k: int|
                            0 <= k < s.drop_first().len() && k != j0 && p(s.drop_first()[k]));
                    assert(s.drop_first()[j0] == s[j0 + 1]);
                    if p(s[j0 + 1]) {
                        let k0 = choose|k0: int|
                            0 <= k0 < s.drop_first().len() && k0 != j0 && p(s.drop_first()[k0]);
                        assert(s.drop_first()[k0] == s[k0 + 1]);
                    }
                }
            }
        }
    }
}

/// The exclusive write excludes every other holder: while a task holds
/// the write, no other task holds the lock in any mode — no read share,
/// no queue ticket, no write.
pub proof fn lemma_write_excludes_all<T>(v: QueueRwLockView<T>, t1: usize, t2: usize)
    requires
        v.wf(),
        v.holds_write(t1),
        t1 != t2,
    ensures
        !v.holds_any(t2),
{
    lemma_count_positive(v.readers, holder_is(t2));
}

/// The queue ticket is exclusive among queuers: two distinct tasks never
/// hold it simultaneously.
pub proof fn lemma_queue_exclusive<T>(v: QueueRwLockView<T>, t1: usize, t2: usize)
    requires
        t1 != t2,
    ensures
        !(v.holds_queue(t1) && v.holds_queue(t2)),
{
}

} // verus!
