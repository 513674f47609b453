use vstd::prelude::*;

use crate::deadlock::{DeadlockDetector, DetectorView};
use crate::error::Error;
use crate::primitives::lock_data::LockData;
use crate::primitives::ops::Ops;
use crate::queue_rw_lock::Attempt;

verus! {

/// The abstract state of a guarded asynchronous mutex: the guarded value
/// and the one task holding the lock, if any.
#[verifier::ext_equal]
pub struct MutexView<T> {
    /// The handle of this lock's descriptor in the deadlock detector.
    pub lock: usize,
    /// The guarded value.
    pub value: T,
    /// The task holding the mutex, if any.
    pub owner: Option<usize>,
}

impl<T> MutexView<T> {
    /// Whether task `t` holds the mutex.
    pub open spec fn holds(self, t: usize) -> bool {
        self.owner == Some(t)
    }
}

/// An asynchronous mutex guarded by the deadlock detector.  Acquisitions
/// either succeed on the spot or tell the caller to suspend on the
/// underlying primitive and report the grant back; every acquisition
/// first consults the detector, under the `Write` mode.
pub struct Mutex<T> {
    lock: usize,
    value: T,
    owner: Option<usize>,
}

impl<T> View for Mutex<T> {
    type V = MutexView<T>;

    closed spec fn view(&self) -> MutexView<T> {
        MutexView { lock: self.lock, value: self.value, owner: self.owner }
    }
}

impl<T> Mutex<T> {
    /// Creates an unlocked mutex guarding `value`, registering its
    /// descriptor under `name` with the detector.
    pub fn new(value: T, name: String, det: &mut DeadlockDetector) -> (r: Mutex<T>)
        requires
            old(det)@.wf(),
        ensures
            final(det)@.wf(),
            r@.lock == old(det)@.locks.len(),
            final(det)@.valid_lock(r@.lock as int),
            r@.value == value,
            r@.owner is None,
            final(det)@ == (DetectorView {
                locks: old(det)@.locks.push(
                    crate::primitives::lock_data::LockDataView {
                        lock_id: 0,
                        name: name@,
                        holders: Seq::<usize>::empty(),
                    },
                ),
                ..old(det)@
            }),
    {
        let data = LockData::new(name);
        let lock = det.register_lock(data);
        Mutex { lock, value, owner: None }
    }

    /// Returns a mutable reference to the guarded value; the mutable
    /// borrow makes locking unnecessary.
    pub fn get_mut(&mut self) -> (r: &mut T)
        ensures
            *r == old(self)@.value,
            final(self)@ == (MutexView { value: *final(r), ..old(self)@ }),
    {
        &mut self.value
    }

    /// Consumes the mutex, returning the guarded value.
    pub fn into_inner(self) -> (r: T)
        ensures
            r == self@.value,
    {
        self.value
    }

    /// A shared view of the guarded value, for the task holding the
    /// mutex.
    pub fn value(&self) -> (r: &T)
        ensures
            *r == self@.value,
    {
        &self.value
    }

    /// Replaces the guarded value; only the task holding the mutex may
    /// do so.
    pub fn set_value(&mut self, t: usize, value: T)
        requires
            old(self)@.holds(t),
        ensures
            final(self)@ == (MutexView { value, ..old(self)@ }),
    {
        self.value = value;
    }

    /// The task currently holding the mutex, if any.
    pub fn owner(&self) -> (r: Option<usize>)
        ensures
            r == self@.owner,
    {
        self.owner
    }

    /// Acquires the mutex for task `scope`: the detector check, then the
    /// lock.  Outside a scope nothing happens and the attempt returns
    /// `NotDeadlockCheckFuture`.  On `MustWait` the caller suspends on
    /// the underlying primitive, then reports the grant through
    /// `lock_granted` (or gives the wait up with `cancel_wait`).
    pub fn lock(&mut self, det: &mut DeadlockDetector, scope: Option<usize>) -> (r: Result<
        Attempt,
        Error,
    >)
        requires
            old(det)@.wf(),
            old(det)@.valid_lock(old(self)@.lock as int),
            scope matches Some(t) ==> old(det)@.valid_task(t as int),
            old(det)@.next_id < u64::MAX,
        ensures
            final(det)@.wf(),
            final(self)@.lock == old(self)@.lock,
            final(self)@.value == old(self)@.value,
            scope is None ==> r == Err::<Attempt, Error>(Error::NotDeadlockCheckFuture)
                && final(self)@ == old(self)@ && final(det)@ == old(det)@,
            scope matches Some(t) ==> ({
                let l = old(self)@.lock as int;
                let d1 = old(det)@.with_id_ensured(l);
                let chk = d1.check_result(t as int, l, Ops::Write);
                &&& (chk matches Err(e) ==> r == Err::<Attempt, Error>(e) && final(det)@ == d1
                    && final(self)@ == old(self)@)
                &&& (chk is Ok && old(self)@.owner is None ==> r == Ok::<Attempt, Error>(
                    Attempt::Acquired,
                ) && final(det)@ == d1.add_hold(t as int, l, Ops::Write) && final(self)@ == (
                MutexView { owner: Some(t), ..old(self)@ }))
                &&& (chk is Ok && old(self)@.owner is Some && d1.tasks[t as int].awaiting != 0
                    ==> r == Err::<Attempt, Error>(Error::DeadlockDetected) && final(det)@ == d1
                    && final(self)@ == old(self)@)
                &&& (chk is Ok && old(self)@.owner is Some && d1.tasks[t as int].awaiting == 0
                    ==> r == Ok::<Attempt, Error>(Attempt::MustWait) && final(det)@ == d1.set_wait(
                    t as int,
                    d1.locks[l].lock_id,
                ) && final(self)@ == old(self)@)
            }),
    {
        let t = match scope {
            None => {
                return Err(Error::not_deadlock_check_future(()));
            },
            Some(t) => t,
        };
        let l = self.lock;
        det.ensure_lock_id(l);
        if self.owner.is_none() {
            match det.acquire_fast(t, l, Ops::Write) {
                Err(e) => {
                    proof {
                        assert(final(self)@ =~= old(self)@);
                    }
                    Err(e)
                },
                Ok(()) => {
                    self.owner = Some(t);
                    proof {
                        assert(final(self)@ =~= (MutexView { owner: Some(t), ..old(self)@ }));
                    }
                    Ok(Attempt::Acquired)
                },
            }
        } else {
            match det.start_wait(t, l, Ops::Write) {
                Err(e) => {
                    proof {
                        assert(final(self)@ =~= old(self)@);
                    }
                    Err(e)
                },
                Ok(()) => {
                    proof {
                        assert(final(self)@ =~= old(self)@);
                    }
                    Ok(Attempt::MustWait)
                },
            }
        }
    }

    /// Reports that the suspension after a `lock` attempt was granted.
    pub fn lock_granted(&mut self, det: &mut DeadlockDetector, t: usize)
        requires
            old(det)@.wf(),
            old(det)@.valid_lock(old(self)@.lock as int),
            old(det)@.valid_task(t as int),
            old(det)@.locks[old(self)@.lock as int].lock_id != 0,
            old(det)@.acquire_compatible(t as int, old(self)@.lock as int, Ops::Write),
            old(self)@.owner is None,
        ensures
            final(det)@.wf(),
            final(det)@ == old(det)@.add_hold(t as int, old(self)@.lock as int, Ops::Write),
            final(self)@ == (MutexView { owner: Some(t), ..old(self)@ }),
    {
        det.grant(t, self.lock, Ops::Write);
        self.owner = Some(t);
        proof {
            assert(final(self)@ =~= (MutexView { owner: Some(t), ..old(self)@ }));
        }
    }

    /// Releases the mutex held by task `t` and unwinds the detector
    /// bookkeeping.
    pub fn unlock(&mut self, det: &mut DeadlockDetector, t: usize)
        requires
            old(det)@.wf(),
            old(det)@.valid_lock(old(self)@.lock as int),
            old(det)@.valid_task(t as int),
            old(self)@.holds(t),
        ensures
            final(det)@.wf(),
            final(det)@ == old(det)@.spec_release(t as int, old(self)@.lock as int, Ops::Write),
            final(self)@ == (MutexView { owner: None, ..old(self)@ }),
    {
        let _ = det.release(t, self.lock, Ops::Write);
        self.owner = None;
        proof {
            assert(final(self)@ =~= (MutexView { owner: None, ..old(self)@ }));
        }
    }
}

} // verus!
