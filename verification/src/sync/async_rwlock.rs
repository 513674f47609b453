use vstd::prelude::*;

use crate::counting::{count_matching, lemma_count_positive};
use crate::deadlock::{DeadlockDetector, DetectorView};
use crate::error::Error;
use crate::primitives::lock_data::{holder_is, LockData};
use crate::primitives::ops::Ops;
use crate::queue_rw_lock::Attempt;

verus! {

/// The abstract state of a guarded asynchronous reader/writer lock: the
/// guarded value, the tasks holding read shares and the one task holding
/// the exclusive write, if any.
#[verifier::ext_equal]
pub struct RwLockView<T> {
    /// The handle of this lock's descriptor in the deadlock detector.
    pub lock: usize,
    /// The guarded value.
    pub value: T,
    /// Tasks holding read shares, one entry per share.
    pub readers: Seq<usize>,
    /// The task holding the exclusive write, if any.
    pub writer: Option<usize>,
}

impl<T> RwLockView<T> {
    /// How many read shares task `t` holds.
    pub open spec fn reader_count(self, t: usize) -> nat {
        count_matching(self.readers, holder_is(t))
    }

    /// Whether task `t` holds the exclusive write.
    pub open spec fn holds_write(self, t: usize) -> bool {
        self.writer == Some(t)
    }

    /// The invariant: the exclusive write coexists with no read share.
    pub open spec fn wf(self) -> bool {
        self.writer is Some ==> self.readers.len() == 0
    }
}

/// An asynchronous reader/writer lock guarded by the deadlock detector.
/// Reads are checked under the `Read` mode, writes under `Write`; every
/// acquisition first consults the detector.
pub struct RwLock<T> {
    lock: usize,
    value: T,
    readers: Vec<usize>,
    writer: Option<usize>,
}

impl<T> View for RwLock<T> {
    type V = RwLockView<T>;

    closed spec fn view(&self) -> RwLockView<T> {
        RwLockView { lock: self.lock, value: self.value, readers: self.readers@, writer: self.writer }
    }
}

impl<T> RwLock<T> {
    /// Creates an unlocked lock guarding `value`, registering its
    /// descriptor under `name` with the detector.
    pub fn new(value: T, name: String, det: &mut DeadlockDetector) -> (r: RwLock<T>)
        requires
            old(det)@.wf(),
        ensures
            final(det)@.wf(),
            r@.lock == old(det)@.locks.len(),
            final(det)@.valid_lock(r@.lock as int),
            r@.value == value,
            r@.readers == Seq::<usize>::empty(),
            r@.writer is None,
            r@.wf(),
            final(det)@ == (DetectorView {
                locks: old(det)@.locks.push(
                    crate::primitives::lock_data::LockDataView {
                        lock_id: 0,
                        name: name@,
                        holders: Seq::<usize>::empty(),
                    },
                ),
                ..old(det)@
            }),
    {
        let data = LockData::new(name);
        let lock = det.register_lock(data);
        let r = RwLock { lock, value, readers: Vec::new(), writer: None };
        proof {
            assert(r@.readers =~= Seq::<usize>::empty());
        }
        r
    }

    /// Returns a mutable reference to the guarded value; the mutable
    /// borrow makes locking unnecessary.
    pub fn get_mut(&mut self) -> (r: &mut T)
        ensures
            *r == old(self)@.value,
            final(self)@ == (RwLockView { value: *final(r), ..old(self)@ }),
    {
        &mut self.value
    }

    /// Consumes the lock, returning the guarded value.
    pub fn into_inner(self) -> (r: T)
        ensures
            r == self@.value,
    {
        self.value
    }

    /// A shared view of the guarded value.
    pub fn value(&self) -> (r: &T)
        ensures
            *r == self@.value,
    {
        &self.value
    }

    /// Replaces the guarded value; only the task holding the exclusive
    /// write may do so.
    pub fn set_value(&mut self, t: usize, value: T)
        requires
            old(self)@.holds_write(t),
        ensures
            final(self)@ == (RwLockView { value, ..old(self)@ }),
    {
        self.value = value;
    }

    /// The task currently holding the exclusive write, if any.
    pub fn writer(&self) -> (r: Option<usize>)
        ensures
            r == self@.writer,
    {
        self.writer
    }

    /// How many read shares task `t` holds.
    pub fn reader_count(&self, t: usize) -> (r: usize)
        ensures
            r == self@.reader_count(t),
    {
        let n = self.readers.len();
        let mut i: usize = 0;
        let mut c: usize = 0;
        while i < n
            invariant
                n == self.readers@.len(),
                0 <= i <= n,
                c == count_matching(self.readers@.take(i as int), holder_is(t)),
                c <= i,
            decreases n - i,
        {
            proof {
                assert(self.readers@.take(i + 1).drop_last() =~= self.readers@.take(i as int));
                assert(self.readers@.take(i + 1).last() == self.readers@[i as int]);
            }
            if self.readers[i] == t {
                c += 1;
            }
            i += 1;
        }
        proof {
            assert(self.readers@.take(n as int) =~= self.readers@);
        }
        c
    }

    /// Acquires a read share for task `scope`: the detector check under
    /// `Read`, then the share.  Outside a scope nothing happens and the
    /// attempt returns `NotDeadlockCheckFuture`.
    pub fn read(&mut self, det: &mut DeadlockDetector, scope: Option<usize>) -> (r: Result<
        Attempt,
        Error,
    >)
        requires
            old(det)@.wf(),
            old(det)@.valid_lock(old(self)@.lock as int),
            scope matches Some(t) ==> old(det)@.valid_task(t as int),
            old(det)@.next_id < u64::MAX,
        ensures
            final(det)@.wf(),
            final(self)@.lock == old(self)@.lock,
            final(self)@.value == old(self)@.value,
            scope is None ==> r == Err::<Attempt, Error>(Error::NotDeadlockCheckFuture)
                && final(self)@ == old(self)@ && final(det)@ == old(det)@,
            scope matches Some(t) ==> ({
                let l = old(self)@.lock as int;
                let d1 = old(det)@.with_id_ensured(l);
                let chk = d1.check_result(t as int, l, Ops::Read);
                &&& (chk matches Err(e) ==> r == Err::<Attempt, Error>(e) && final(det)@ == d1
                    && final(self)@ == old(self)@)
                &&& (chk is Ok && old(self)@.writer is None ==> r == Ok::<Attempt, Error>(
                    Attempt::Acquired,
                ) && final(det)@ == d1.add_hold(t as int, l, Ops::Read) && final(self)@ == (
                RwLockView { readers: old(self)@.readers.push(t), ..old(self)@ }))
                &&& (chk is Ok && old(self)@.writer is Some && d1.tasks[t as int].awaiting != 0
                    ==> r == Err::<Attempt, Error>(Error::DeadlockDetected) && final(det)@ == d1
                    && final(self)@ == old(self)@)
                &&& (chk is Ok && old(self)@.writer is Some && d1.tasks[t as int].awaiting == 0
                    ==> r == Ok::<Attempt, Error>(Attempt::MustWait) && final(det)@ == d1.set_wait(
                    t as int,
                    d1.locks[l].lock_id,
                ) && final(self)@ == old(self)@)
            }),
    {
        let t = match scope {
            None => {
                return Err(Error::not_deadlock_check_future(()));
            },
            Some(t) => t,
        };
        let l = self.lock;
        det.ensure_lock_id(l);
        if self.writer.is_none() {
            match det.acquire_fast(t, l, Ops::Read) {
                Err(e) => {
                    proof {
                        assert(final(self)@ =~= old(self)@);
                    }
                    Err(e)
                },
                Ok(()) => {
                    self.readers.push(t);
                    proof {
                        assert(final(self)@ =~= (RwLockView {
                            readers: old(self)@.readers.push(t),
                            ..old(self)@
                        }));
                    }
                    Ok(Attempt::Acquired)
                },
            }
        } else {
            match det.start_wait(t, l, Ops::Read) {
                Err(e) => {
                    proof {
                        assert(final(self)@ =~= old(self)@);
                    }
                    Err(e)
                },
                Ok(()) => {
                    proof {
                        assert(final(self)@ =~= old(self)@);
                    }
                    Ok(Attempt::MustWait)
                },
            }
        }
    }

    /// Reports that the suspension after a `read` attempt was granted.
    pub fn read_granted(&mut self, det: &mut DeadlockDetector, t: usize)
        requires
            old(det)@.wf(),
            old(det)@.valid_lock(old(self)@.lock as int),
            old(det)@.valid_task(t as int),
            old(det)@.locks[old(self)@.lock as int].lock_id != 0,
            old(det)@.acquire_compatible(t as int, old(self)@.lock as int, Ops::Read),
            old(self)@.writer is None,
        ensures
            final(det)@.wf(),
            final(det)@ == old(det)@.add_hold(t as int, old(self)@.lock as int, Ops::Read),
            final(self)@ == (RwLockView { readers: old(self)@.readers.push(t), ..old(self)@ }),
    {
        det.grant(t, self.lock, Ops::Read);
        self.readers.push(t);
        proof {
            assert(final(self)@ =~= (RwLockView {
                readers: old(self)@.readers.push(t),
                ..old(self)@
            }));
        }
    }

    /// Acquires the exclusive write for task `scope`: the detector check
    /// under `Write`, then the lock.  Outside a scope nothing happens and
    /// the attempt returns `NotDeadlockCheckFuture`.
    pub fn write(&mut self, det: &mut DeadlockDetector, scope: Option<usize>) -> (r: Result<
        Attempt,
        Error,
    >)
        requires
            old(det)@.wf(),
            old(det)@.valid_lock(old(self)@.lock as int),
            scope matches Some(t) ==> old(det)@.valid_task(t as int),
            old(det)@.next_id < u64::MAX,
        ensures
            final(det)@.wf(),
            final(self)@.lock == old(self)@.lock,
            final(self)@.value == old(self)@.value,
            scope is None ==> r == Err::<Attempt, Error>(Error::NotDeadlockCheckFuture)
                && final(self)@ == old(self)@ && final(det)@ == old(det)@,
            scope matches Some(t) ==> ({
                let l = old(self)@.lock as int;
                let d1 = old(det)@.with_id_ensured(l);
                let chk = d1.check_result(t as int, l, Ops::Write);
                let free = old(self)@.writer is None && old(self)@.readers.len() == 0;
                &&& (chk matches Err(e) ==> r == Err::<Attempt, Error>(e) && final(det)@ == d1
                    && final(self)@ == old(self)@)
                &&& (chk is Ok && free ==> r == Ok::<Attempt, Error>(Attempt::Acquired)
                    && final(det)@ == d1.add_hold(t as int, l, Ops::Write) && final(self)@ == (
                RwLockView { writer: Some(t), ..old(self)@ }))
                &&& (chk is Ok && !free && d1.tasks[t as int].awaiting != 0 ==> r == Err::<
                    Attempt,
                    Error,
                >(Error::DeadlockDetected) && final(det)@ == d1 && final(self)@ == old(self)@)
                &&& (chk is Ok && !free && d1.tasks[t as int].awaiting == 0 ==> r == Ok::<
                    Attempt,
                    Error,
                >(Attempt::MustWait) && final(det)@ == d1.set_wait(t as int, d1.locks[l].lock_id)
                    && final(self)@ == old(self)@)
            }),
    {
        let t = match scope {
            None => {
                return Err(Error::not_deadlock_check_future(()));
            },
            Some(t) => t,
        };
        let l = self.lock;
        det.ensure_lock_id(l);
        if self.writer.is_none() && self.readers.len() == 0 {
            match det.acquire_fast(t, l, Ops::Write) {
                Err(e) => {
                    proof {
                        assert(final(self)@ =~= old(self)@);
                    }
                    Err(e)
                },
                Ok(()) => {
                    self.writer = Some(t);
                    proof {
                        assert(final(self)@ =~= (RwLockView { writer: Some(t), ..old(self)@ }));
                    }
                    Ok(Attempt::Acquired)
                },
            }
        } else {
            match det.start_wait(t, l, Ops::Write) {
                Err(e) => {
                    proof {
                        assert(final(self)@ =~= old(self)@);
                    }
                    Err(e)
                },
                Ok(()) => {
                    proof {
                        assert(final(self)@ =~= old(self)@);
                    }
                    Ok(Attempt::MustWait)
                },
            }
        }
    }

    /// Reports that the suspension after a `write` attempt was granted:
    /// the read shares drained and no writer remains.
    pub fn write_granted(&mut self, det: &mut DeadlockDetector, t: usize)
        requires
            old(det)@.wf(),
            old(det)@.valid_lock(old(self)@.lock as int),
            old(det)@.valid_task(t as int),
            old(det)@.locks[old(self)@.lock as int].lock_id != 0,
            old(det)@.acquire_compatible(t as int, old(self)@.lock as int, Ops::Write),
            old(self)@.writer is None,
            old(self)@.readers.len() == 0,
        ensures
            final(det)@.wf(),
            final(det)@ == old(det)@.add_hold(t as int, old(self)@.lock as int, Ops::Write),
            final(self)@ == (RwLockView { writer: Some(t), ..old(self)@ }),
    {
        det.grant(t, self.lock, Ops::Write);
        self.writer = Some(t);
        proof {
            assert(final(self)@ =~= (RwLockView { writer: Some(t), ..old(self)@ }));
        }
    }

    /// Releases one read share held by task `t`.
    pub fn release_read(&mut self, det: &mut DeadlockDetector, t: usize)
        requires
            old(self)@.wf(),
            old(det)@.wf(),
            old(det)@.valid_lock(old(self)@.lock as int),
            old(det)@.valid_task(t as int),
            old(self)@.reader_count(t) > 0,
        ensures
            final(self)@.wf(),
            final(det)@.wf(),
            final(det)@ == old(det)@.spec_release(t as int, old(self)@.lock as int, Ops::Read),
            final(self)@ == (RwLockView {
                readers: crate::counting::remove_first_matching(old(self)@.readers, holder_is(t)),
                ..old(self)@
            }),
            final(self)@.reader_count(t) == old(self)@.reader_count(t) - 1,
    {
        let _ = det.release(t, self.lock, Ops::Read);
        let n = self.readers.len();
        let mut i: usize = 0;
        proof {
            lemma_count_positive(self.readers@, holder_is(t));
            assert(self@.writer is None);
        }
        while i < n
            invariant
                self@ == old(self)@,
                self@.writer is None,
                det@.wf(),
                det@ == old(det)@.spec_release(t as int, self@.lock as int, Ops::Read),
                n == self.readers@.len(),
                0 <= i <= n,
                exists|k: int| i <= k < n && self.readers@[k] == t,
                forall|j: int| 0 <= j < i ==> self.readers@[j] != t,
            decreases n - i,
        {
            if self.readers[i] == t {
                proof {
                    crate::counting::lemma_remove_first_is_remove_at(
                        self.readers@,
                        holder_is(t),
                        i as int,
                    );
                    crate::counting::lemma_count_remove(self.readers@, holder_is(t), i as int);
                }
                self.readers.remove(i);
                proof {
                    assert(final(self)@ =~= (RwLockView {
                        readers: crate::counting::remove_first_matching(
                            old(self)@.readers,
                            holder_is(t),
                        ),
                        ..old(self)@
                    }));
                }
                return ;
            }
            i += 1;
        }
        proof {
            assert(false);
        }
    }

    /// Releases the exclusive write held by task `t`.
    pub fn release_write(&mut self, det: &mut DeadlockDetector, t: usize)
        requires
            old(det)@.wf(),
            old(det)@.valid_lock(old(self)@.lock as int),
            old(det)@.valid_task(t as int),
            old(self)@.holds_write(t),
        ensures
            final(det)@.wf(),
            final(det)@ == old(det)@.spec_release(t as int, old(self)@.lock as int, Ops::Write),
            final(self)@ == (RwLockView { writer: None, ..old(self)@ }),
    {
        let _ = det.release(t, self.lock, Ops::Write);
        self.writer = None;
        proof {
            assert(final(self)@ =~= (RwLockView { writer: None, ..old(self)@ }));
        }
    }
}

} // verus!
