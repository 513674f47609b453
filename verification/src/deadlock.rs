use vstd::prelude::*;

use crate::counting::{count_matching, lemma_count_push, lemma_count_remove, lemma_count_positive};
use crate::error::Error;
use crate::primitives::ops::Ops;
use crate::primitives::task::{entry_on, HeldLock, Task, TaskView};
use crate::primitives::lock_data::{LockData, LockDataView};

verus! {

/// The abstract state of the deadlock detector: every task context in a
/// live scope, every registered lock descriptor, and the next fresh lock
/// id.  Tasks and locks are referred to by their index.
#[verifier::ext_equal]
pub struct DetectorView {
    /// One entry per registered task context.
    pub tasks: Seq<TaskView>,
    /// One entry per registered lock descriptor.
    pub locks: Seq<LockDataView>,
    /// The next id the allocator will hand out; ids start at 1 and are
    /// never reused.
    pub next_id: u64,
}

impl DetectorView {
    /// `t` names a registered task.
    pub open spec fn valid_task(self, t: int) -> bool {
        0 <= t < self.tasks.len()
    }

    /// `l` names a registered lock.
    pub open spec fn valid_lock(self, l: int) -> bool {
        0 <= l < self.locks.len()
    }

    /// Well-formedness of the whole record:
    /// - ids are allocated monotonically: every assigned lock id and
    ///   every id recorded in a held set or awaited is below `next_id`;
    /// - assigned lock ids are distinct;
    /// - a lock without an id has never been held;
    /// - holder entries name registered tasks;
    /// - each task's held set is free of mode conflicts;
    /// - holder lists and held sets agree: a task appears in a lock's
    ///   holder list exactly as often as the lock's id appears in the
    ///   task's held set.
    pub open spec fn wf(self) -> bool {
        &&& 1 <= self.next_id
        &&& forall|l: int|
            self.valid_lock(l) ==> (#[trigger] self.locks[l]).lock_id < self.next_id
        &&& forall|l1: int, l2: int|
            self.valid_lock(l1) && self.valid_lock(l2) && l1 != l2
                && (#[trigger] self.locks[l1]).lock_id != 0
                ==> self.locks[l1].lock_id != (#[trigger] self.locks[l2]).lock_id
        &&& forall|l: int, i: int|
            self.valid_lock(l) && 0 <= i < self.locks[l].holders.len()
                ==> ((#[trigger] self.locks[l].holders[i]) as int) < self.tasks.len()
        &&& forall|l: int|
            self.valid_lock(l) && (#[trigger] self.locks[l]).lock_id == 0
                ==> self.locks[l].holders.len() == 0
        &&& forall|t: int| self.valid_task(t) ==> (#[trigger] self.tasks[t]).wf(self.next_id)
        &&& forall|l: int, t2: usize|
            self.valid_lock(l) && (t2 as int) < self.tasks.len()
                && (#[trigger] self.locks[l]).lock_id != 0
                ==> self.locks[l].holder_count(t2)
                    == (#[trigger] self.tasks[t2 as int]).held_count(self.locks[l].lock_id)
    }

    /// The id under which lock `l` takes part in detector checks: its
    /// assigned id, or, if none is assigned yet, the id the allocator
    /// will assign on this consultation.
    pub open spec fn consult_id(self, l: int) -> u64 {
        if self.locks[l].lock_id != 0 {
            self.locks[l].lock_id
        } else {
            self.next_id
        }
    }

    /// The state after lock `l` has its id ensured.
    pub open spec fn with_id_ensured(self, l: int) -> Self {
        if self.locks[l].lock_id != 0 {
            self
        } else {
            DetectorView {
                locks: self.locks.update(
                    l,
                    LockDataView { lock_id: self.next_id, ..self.locks[l] },
                ),
                next_id: (self.next_id + 1) as u64,
                ..self
            }
        }
    }

    /// Pre-acquisition step 1: the request is compatible with everything
    /// the task already holds on this lock.
    pub open spec fn acquire_compatible(self, t: int, l: int, op: Ops) -> bool {
        self.tasks[t].compatible_with(self.locks[l].lock_id, op)
    }

    /// Pre-acquisition step 2: some current holder of lock `l` is
    /// awaiting a lock the requesting task `t` holds — granting the wait
    /// would close a cycle.
    pub open spec fn has_cycle(self, t: int, l: int) -> bool {
        exists|i: int|
            0 <= i < self.locks[l].holders.len() && {
                let h = (#[trigger] self.locks[l].holders[i]) as int;
                self.tasks[h].awaiting != 0 && self.tasks[t].held_count(self.tasks[h].awaiting)
                    > 0
            }
    }

    /// The outcome of the pre-acquisition check (steps 1 and 2): an
    /// incompatible re-entry is a `RecursiveLock`, a would-be cycle a
    /// `DeadlockDetected`.
    pub open spec fn check_result(self, t: int, l: int, op: Ops) -> Result<(), Error> {
        if !self.acquire_compatible(t, l, op) {
            Err(Error::RecursiveLock)
        } else if self.has_cycle(t, l) {
            Err(Error::DeadlockDetected)
        } else {
            Ok(())
        }
    }

    /// The state with task `t` replaced.
    pub open spec fn with_task(self, t: int, tv: TaskView) -> Self {
        DetectorView { tasks: self.tasks.update(t, tv), ..self }
    }

    /// The state after task `t` starts awaiting lock id `id`.
    pub open spec fn set_wait(self, t: int, id: u64) -> Self {
        self.with_task(t, TaskView { awaiting: id, ..self.tasks[t] })
    }

    /// The state after task `t` stops awaiting.
    pub open spec fn clear_wait(self, t: int) -> Self {
        self.with_task(t, TaskView { awaiting: 0, ..self.tasks[t] })
    }

    /// Relates a detector state `post` to `self` after one hold of lock
    /// `l` by task `t` in mode `op` was released: one matching entry is
    /// gone from the task's held set, one holder entry from the lock,
    /// and nothing else changed.
    pub open spec fn released_one(self, post: DetectorView, t: usize, l: usize, op: Ops) -> bool {
        let id = self.locks[l as int].lock_id;
        let e = HeldLock { lock_id: id, op };
        &&& post.tasks[t as int].entry_count(e) == self.tasks[t as int].entry_count(e) - 1
        &&& post.tasks[t as int].held_count(id) == self.tasks[t as int].held_count(id) - 1
        &&& forall|id2: u64| id2 != id
            ==> #[trigger] post.tasks[t as int].held_count(id2)
                == self.tasks[t as int].held_count(id2)
        &&& post.tasks[t as int].awaiting == self.tasks[t as int].awaiting
        &&& post.tasks[t as int].name == self.tasks[t as int].name
        &&& post.locks[l as int].holder_count(t) == self.locks[l as int].holder_count(t) - 1
        &&& forall|t2: usize| t2 != t
            ==> #[trigger] post.locks[l as int].holder_count(t2)
                == self.locks[l as int].holder_count(t2)
        &&& post.locks[l as int].lock_id == self.locks[l as int].lock_id
        &&& forall|t2: int| post.valid_task(t2) && t2 != t as int
            ==> #[trigger] post.tasks[t2] == self.tasks[t2]
        &&& forall|l2: int| post.valid_lock(l2) && l2 != l as int
            ==> #[trigger] post.locks[l2] == self.locks[l2]
        &&& post.tasks.len() == self.tasks.len()
        &&& post.locks.len() == self.locks.len()
        &&& post.next_id == self.next_id
    }

    /// The state after one hold of lock `l` by task `t` in mode `op` is
    /// released: the earliest matching entry leaves the task's held set
    /// and the earliest holder entry for the task leaves the lock; when
    /// no such hold is recorded, nothing changes.
    pub open spec fn spec_release(self, t: int, l: int, op: Ops) -> Self {
        let e = HeldLock { lock_id: self.locks[l].lock_id, op };
        if self.tasks[t].entry_count(e) > 0 {
            DetectorView {
                tasks: self.tasks.update(
                    t,
                    TaskView {
                        held: crate::counting::remove_first_matching(
                            self.tasks[t].held,
                            crate::primitives::task::entry_is(e),
                        ),
                        ..self.tasks[t]
                    },
                ),
                locks: self.locks.update(
                    l,
                    LockDataView {
                        holders: crate::counting::remove_first_matching(
                            self.locks[l].holders,
                            crate::primitives::lock_data::holder_is(t as usize),
                        ),
                        ..self.locks[l]
                    },
                ),
                ..self
            }
        } else {
            self
        }
    }

    /// The state after a hold of lock `l` in mode `op` is recorded for
    /// task `t`: one entry is appended to the task's held set and one to
    /// the lock's holder list, and the task's wait record is cleared.
    pub open spec fn add_hold(self, t: int, l: int, op: Ops) -> Self {
        DetectorView {
            tasks: self.tasks.update(
                t,
                TaskView {
                    awaiting: 0,
                    held: self.tasks[t].held.push(
                        HeldLock { lock_id: self.locks[l].lock_id, op },
                    ),
                    ..self.tasks[t]
                },
            ),
            locks: self.locks.update(
                l,
                LockDataView { holders: self.locks[l].holders.push(t as usize), ..self.locks[l] },
            ),
            ..self
        }
    }
}

/// The deadlock detector: the bookkeeping shared by every guarded lock in
/// the process.  It records, per task, the one lock the task awaits and
/// the multiset of locks it holds, and, per lock, its lazily assigned id
/// and its current holders; every acquisition attempt is checked against
/// these records before any suspension happens.
pub struct DeadlockDetector {
    tasks: Vec<Task>,
    locks: Vec<LockData>,
    next_id: u64,
}

impl View for DeadlockDetector {
    type V = DetectorView;

    closed spec fn view(&self) -> DetectorView {
        DetectorView {
            tasks: self.tasks@.map_values(|t: Task| t@),
            locks: self.locks@.map_values(|l: LockData| l@),
            next_id: self.next_id,
        }
    }
}

impl DeadlockDetector {
    /// An empty detector: no scopes, no locks, ids starting at 1.
    pub fn new() -> (d: DeadlockDetector)
        ensures
            d@.tasks == Seq::<TaskView>::empty(),
            d@.locks == Seq::<LockDataView>::empty(),
            d@.next_id == 1,
            d@.wf(),
    {
        let d = DeadlockDetector { tasks: Vec::new(), locks: Vec::new(), next_id: 1 };
        proof {
            assert(d@.tasks =~= Seq::<TaskView>::empty());
            assert(d@.locks =~= Seq::<LockDataView>::empty());
        }
        d
    }

    /// How many task contexts are registered.
    pub fn task_count(&self) -> (n: usize)
        ensures
            n == self@.tasks.len(),
    {
        self.tasks.len()
    }

    /// How many lock descriptors are registered.
    pub fn lock_count(&self) -> (n: usize)
        ensures
            n == self@.locks.len(),
    {
        self.locks.len()
    }

    /// Whether the id allocator can still hand out a fresh id.
    pub fn ids_available(&self) -> (r: bool)
        ensures
            r == (self@.next_id < u64::MAX),
    {
        self.next_id < u64::MAX
    }

    /// Registers a fresh task context and returns its handle.
    pub fn register_task(&mut self, name: String) -> (t: usize)
        requires
            old(self)@.wf(),
        ensures
            final(self)@.wf(),
            t == old(self)@.tasks.len(),
            final(self)@ == (DetectorView {
                tasks: old(self)@.tasks.push(
                    TaskView { name: name@, awaiting: 0, held: Seq::<HeldLock>::empty() },
                ),
                ..old(self)@
            }),
    {
        let t = self.tasks.len();
        let ghost name0 = name@;
        self.tasks.push(Task::new(name));
        proof {
            let post = final(self)@;
            let want = DetectorView {
                tasks: old(self)@.tasks.push(
                    TaskView { name: name0, awaiting: 0, held: Seq::<HeldLock>::empty() },
                ),
                ..old(self)@
            };
            assert(post.tasks =~= want.tasks);
            assert(post.locks =~= want.locks);
            assert(post =~= want);
            assert forall|l2: int, t2: usize|
                post.valid_lock(l2) && (t2 as int) < post.tasks.len()
                    && (#[trigger] post.locks[l2]).lock_id != 0 implies post.locks[l2].holder_count(
                t2,
            ) == (#[trigger] post.tasks[t2 as int]).held_count(post.locks[l2].lock_id) by {
                if (t2 as int) < old(self)@.tasks.len() {
                    assert(post.tasks[t2 as int] == old(self)@.tasks[t2 as int]);
                } else {
                    // The fresh task appears in no holder list: every
                    // holder entry names a previously registered task.
                    lemma_count_positive(post.locks[l2].holders, crate::primitives::lock_data::holder_is(t2));
                    if post.locks[l2].holder_count(t2) > 0 {
                        let i = choose|i: int|
                            0 <= i < post.locks[l2].holders.len()
                                && crate::primitives::lock_data::holder_is(t2)(post.locks[l2].holders[i]);
                        assert((old(self)@.locks[l2].holders[i] as int) < old(self)@.tasks.len());
                    }
                    assert(post.tasks[t2 as int].held == Seq::<HeldLock>::empty());
                }
            }
        }
        t
    }

    /// Registers a lock descriptor and returns its handle.  The
    /// descriptor must be fresh: no id, no holders.
    pub fn register_lock(&mut self, lock: LockData) -> (l: usize)
        requires
            old(self)@.wf(),
            lock@.lock_id == 0,
            lock@.holders.len() == 0,
        ensures
            final(self)@.wf(),
            l == old(self)@.locks.len(),
            final(self)@ == (DetectorView { locks: old(self)@.locks.push(lock@), ..old(self)@ }),
    {
        let l = self.locks.len();
        let ghost lv = lock@;
        self.locks.push(lock);
        proof {
            let post = final(self)@;
            let want = DetectorView { locks: old(self)@.locks.push(lv), ..old(self)@ };
            assert(post.locks =~= want.locks);
            assert(post.tasks =~= want.tasks);
            assert(post =~= want);
            assert forall|l2: int, t2: usize|
                want.valid_lock(l2) && (t2 as int) < want.tasks.len()
                    && (#[trigger] want.locks[l2]).lock_id != 0 implies want.locks[l2].holder_count(
                t2,
            ) == (#[trigger] want.tasks[t2 as int]).held_count(want.locks[l2].lock_id) by {
                if l2 < l {
                    assert(want.locks[l2] == old(self)@.locks[l2]);
                }
            }
        }
        l
    }

    /// The assigned id of lock `l`, assigning a fresh one on first use.
    /// Ids start at 1, so 0 never names a lock.
    pub fn ensure_lock_id(&mut self, l: usize) -> (id: u64)
        requires
            old(self)@.wf(),
            old(self)@.valid_lock(l as int),
            old(self)@.next_id < u64::MAX,
        ensures
            final(self)@.wf(),
            id != 0,
            id == old(self)@.consult_id(l as int),
            final(self)@ == old(self)@.with_id_ensured(l as int),
    {
        let existing = self.locks[l].id();
        if existing != 0 {
            proof {
                assert(final(self)@ =~= old(self)@.with_id_ensured(l as int));
            }
            return existing;
        }
        let id = self.next_id;
        self.next_id = self.next_id + 1;
        self.locks[l].set_id(id);
        proof {
            let post = final(self)@;
            let want = old(self)@.with_id_ensured(l as int);
            assert(post.locks =~= want.locks);
            assert(post.tasks =~= want.tasks);
            assert(post =~= want);
            // Well-formedness: the fresh id is distinct from every
            // assigned id, every held id and every awaited id, all of
            // which are below the old `next_id`.
            assert forall|t: int| post.valid_task(t) implies (#[trigger] post.tasks[t]).wf(
                post.next_id,
            ) by {
                assert(old(self)@.tasks[t].wf(old(self)@.next_id));
                assert(post.tasks[t] == old(self)@.tasks[t]);
            }
            assert forall|l2: int, t2: usize|
                post.valid_lock(l2) && (t2 as int) < post.tasks.len()
                    && (#[trigger] post.locks[l2]).lock_id != 0 implies post.locks[l2].holder_count(
                t2,
            ) == (#[trigger] post.tasks[t2 as int]).held_count(post.locks[l2].lock_id) by {
                if l2 == l as int {
                    // The lock had no id, hence no holders; and no held
                    // set mentions the fresh id, which was never handed
                    // out before.
                    assert(old(self)@.locks[l as int].holders.len() == 0);
                    assert(post.locks[l2].holder_count(t2) == 0);
                    let tv = post.tasks[t2 as int];
                    lemma_count_positive(tv.held, entry_on(id));
                    if tv.held_count(id) > 0 {
                        let i = choose|i: int|
                            0 <= i < tv.held.len() && entry_on(id)(tv.held[i]);
                        assert(old(self)@.tasks[t2 as int].wf(old(self)@.next_id));
                        assert(tv.held[i].lock_id < old(self)@.next_id);
                    }
                } else {
                    assert(post.locks[l2] == old(self)@.locks[l2]);
                }
            }
        }
        id
    }

    /// Pre-acquisition check for a request `(op, l)` by task `t`:
    /// first the re-entry check against the task's own held set, then the
    /// cycle check against the lock's current holders.  The lock must
    /// already have its id (see `ensure_lock_id`).
    pub fn check_deadlock(&self, t: usize, l: usize, op: Ops) -> (r: Result<(), Error>)
        requires
            self@.wf(),
            self@.valid_task(t as int),
            self@.valid_lock(l as int),
            self@.locks[l as int].lock_id != 0,
        ensures
            r == self@.check_result(t as int, l as int, op),
    {
        let id = self.locks[l].id();
        if !self.tasks[t].check_compatible(id, op) {
            return Err(Error::RecursiveLock);
        }
        let n = self.locks[l].holders_len();
        let mut i: usize = 0;
        while i < n
            invariant
                self@.wf(),
                self@.valid_task(t as int),
                self@.valid_lock(l as int),
                self@.acquire_compatible(t as int, l as int, op),
                n == self@.locks[l as int].holders.len(),
                0 <= i <= n,
                forall|j: int|
                    0 <= j < i ==> {
                        let h = (#[trigger] self@.locks[l as int].holders[j]) as int;
                        !(self@.tasks[h].awaiting != 0 && self@.tasks[t as int].held_count(
                            self@.tasks[h].awaiting,
                        ) > 0)
                    },
            decreases n - i,
        {
            let h = self.locks[l].holder_at(i);
            let a = self.tasks[h].await_lock_id();
            if a != 0 && self.tasks[t].holds_lock(a) {
                proof {
                    assert(self@.locks[l as int].holders[i as int] == h);
                    assert(self@.has_cycle(t as int, l as int));
                }
                return Err(Error::DeadlockDetected);
            }
            i += 1;
        }
        Ok(())
    }

    /// Records that task `t` begins to await lock `l` in mode `op`: the
    /// pre-acquisition check, then the wait registration.  A task may
    /// await at most one lock, so if a wait is already recorded the
    /// request is refused as `DeadlockDetected`.
    pub fn start_wait(&mut self, t: usize, l: usize, op: Ops) -> (r: Result<(), Error>)
        requires
            old(self)@.wf(),
            old(self)@.valid_task(t as int),
            old(self)@.valid_lock(l as int),
            old(self)@.locks[l as int].lock_id != 0,
        ensures
            final(self)@.wf(),
            old(self)@.check_result(t as int, l as int, op) is Err ==> r == old(self)@.check_result(
                t as int,
                l as int,
                op,
            ) && final(self)@ == old(self)@,
            old(self)@.check_result(t as int, l as int, op) is Ok && old(self)@.tasks[t as int].awaiting
                != 0 ==> r == Err::<(), Error>(Error::DeadlockDetected) && final(self)@ == old(
                self,
            )@,
            old(self)@.check_result(t as int, l as int, op) is Ok && old(self)@.tasks[t as int].awaiting
                == 0 ==> r is Ok && final(self)@ == old(self)@.set_wait(
                t as int,
                old(self)@.locks[l as int].lock_id,
            ),
            (final(self)@, r) == old(self)@.start_wait_outcome(t as int, l as int, op),
    {
        match self.check_deadlock(t, l, op) {
            Err(e) => return Err(e),
            Ok(()) => (),
        }
        let id = self.locks[l].id();
        match self.tasks[t].set_await_lock_id(id) {
            Ok(()) => {
                proof {
                    let post = final(self)@;
                    let want = old(self)@.set_wait(t as int, id);
                    assert(post.tasks =~= want.tasks);
                    assert(post.locks =~= want.locks);
                    assert(post =~= want);
                    lemma_wf_with_awaiting(old(self)@, t as int, id);
                }
                Ok(())
            },
            Err(e) => {
                proof {
                    assert(final(self)@ =~= old(self)@);
                }
                Err(e)
            },
        }
    }

    /// Clears task `t`'s wait record: the task gave up, or is about to be
    /// granted the lock.
    pub fn cancel_wait(&mut self, t: usize)
        requires
            old(self)@.wf(),
            old(self)@.valid_task(t as int),
        ensures
            final(self)@.wf(),
            final(self)@ == old(self)@.clear_wait(t as int),
    {
        self.tasks[t].clear_await_lock_id();
        proof {
            let post = final(self)@;
            let want = old(self)@.clear_wait(t as int);
            assert(post.tasks =~= want.tasks);
            assert(post.locks =~= want.locks);
            assert(post =~= want);
            lemma_wf_with_awaiting(old(self)@, t as int, 0);
        }
    }

    /// Records the grant of lock `l` to task `t` in mode `op`: clears the
    /// task's wait record and adds one hold entry on both sides of the
    /// bookkeeping.  The caller must have passed the pre-acquisition
    /// check: the request is compatible with everything the task already
    /// holds on this lock.
    pub fn grant(&mut self, t: usize, l: usize, op: Ops)
        requires
            old(self)@.wf(),
            old(self)@.valid_task(t as int),
            old(self)@.valid_lock(l as int),
            old(self)@.locks[l as int].lock_id != 0,
            old(self)@.acquire_compatible(t as int, l as int, op),
        ensures
            final(self)@.wf(),
            final(self)@ == old(self)@.add_hold(t as int, l as int, op),
    {
        let id = self.locks[l].id();
        self.tasks[t].clear_await_lock_id();
        self.tasks[t].add_lock(id, op);
        self.locks[l].add_task(t);
        proof {
            let post = final(self)@;
            let want = old(self)@.add_hold(t as int, l as int, op);
            assert(post.tasks =~= want.tasks);
            assert(post.locks =~= want.locks);
            assert(post =~= want);
            lemma_wf_add_hold(old(self)@, t, l, op);
        }
    }

    /// The fast path of an acquisition: the pre-acquisition check and, if
    /// it passes, the hold bookkeeping at once, with no wait stage.
    pub fn acquire_fast(&mut self, t: usize, l: usize, op: Ops) -> (r: Result<(), Error>)
        requires
            old(self)@.wf(),
            old(self)@.valid_task(t as int),
            old(self)@.valid_lock(l as int),
            old(self)@.locks[l as int].lock_id != 0,
        ensures
            final(self)@.wf(),
            r == old(self)@.check_result(t as int, l as int, op),
            r is Ok ==> final(self)@ == old(self)@.add_hold(t as int, l as int, op),
            r is Err ==> final(self)@ == old(self)@,
    {
        match self.check_deadlock(t, l, op) {
            Err(e) => Err(e),
            Ok(()) => {
                self.grant(t, l, op);
                Ok(())
            },
        }
    }

    /// Undoes one hold of lock `l` by task `t` in mode `op`: removes one
    /// matching entry from the task's held set and one holder entry from
    /// the lock, in that fixed order.  Returns whether a hold was found;
    /// releasing a hold that does not exist changes nothing.
    pub fn release(&mut self, t: usize, l: usize, op: Ops) -> (r: bool)
        requires
            old(self)@.wf(),
            old(self)@.valid_task(t as int),
            old(self)@.valid_lock(l as int),
        ensures
            final(self)@.wf(),
            r == (old(self)@.tasks[t as int].entry_count(
                HeldLock { lock_id: old(self)@.locks[l as int].lock_id, op },
            ) > 0),
            !r ==> final(self)@ == old(self)@,
            r ==> old(self)@.released_one(final(self)@, t, l, op),
            final(self)@ == old(self)@.spec_release(t as int, l as int, op),
    {
        let id = self.locks[l].id();
        let removed = self.tasks[t].remove_lock(id, op);
        if !removed {
            proof {
                assert(final(self)@ =~= old(self)@);
                assert(final(self)@ == old(self)@.spec_release(t as int, l as int, op));
            }
            return false;
        }
        proof {
            // A removed entry carries an allocated id, so the lock has
            // its id and the holder lists agree with the held sets: the
            // holder entry to remove exists.
            let v0 = old(self)@;
            let e = HeldLock { lock_id: id, op };
            lemma_count_positive(v0.tasks[t as int].held, crate::primitives::task::entry_is(e));
            let i = choose|i: int|
                0 <= i < v0.tasks[t as int].held.len()
                    && crate::primitives::task::entry_is(e)(v0.tasks[t as int].held[i]);
            assert(entry_on(id)(v0.tasks[t as int].held[i]));
            lemma_count_positive(v0.tasks[t as int].held, entry_on(id));
            assert(v0.tasks[t as int].held[i].lock_id >= 1);
            assert(v0.locks[l as int].holder_count(t) == v0.tasks[t as int].held_count(id));
        }
        let found = self.locks[l].remove_task(t);
        proof {
            assert(found);
            lemma_wf_release(old(self)@, final(self)@, t, l, op);
            assert(final(self)@ =~= old(self)@.spec_release(t as int, l as int, op));
        }
        true
    }

    /// Whether a request for lock `l` in mode `op` by task `t` is
    /// compatible with everything the task already holds on that lock
    /// (pre-acquisition step 1 alone).
    pub fn check_compatible(&self, t: usize, l: usize, op: Ops) -> (r: bool)
        requires
            self@.valid_task(t as int),
            self@.valid_lock(l as int),
        ensures
            r == self@.acquire_compatible(t as int, l as int, op),
    {
        let id = self.locks[l].id();
        self.tasks[t].check_compatible(id, op)
    }

    /// Whether task `t` currently holds any lock.
    pub fn has_lock_held(&self, t: usize) -> (r: bool)
        requires
            self@.valid_task(t as int),
        ensures
            r == self@.tasks[t as int].holds_any(),
    {
        self.tasks[t].has_lock_held()
    }

    /// The lock id task `t` is currently awaiting, or 0.
    pub fn task_awaiting(&self, t: usize) -> (r: u64)
        requires
            self@.valid_task(t as int),
        ensures
            r == self@.tasks[t as int].awaiting,
    {
        self.tasks[t].await_lock_id()
    }
}

/// Establishes the deadlock-check scope for one task.  If a scope is
/// already installed (`current` names its task), it is reused and the
/// detector is unchanged: re-entry into an existing scope is a no-op.
/// Otherwise a fresh task context named `task_name` is registered, and
/// the returned handle names it.
pub fn with_deadlock_check(
    det: &mut DeadlockDetector,
    current: Option<usize>,
    task_name: String,
) -> (t: usize)
    requires
        old(det)@.wf(),
        current matches Some(t0) ==> old(det)@.valid_task(t0 as int),
    ensures
        final(det)@.wf(),
        final(det)@.valid_task(t as int),
        current matches Some(t0) ==> t == t0 && final(det)@ == old(det)@,
        current is None ==> t == old(det)@.tasks.len() && final(det)@ == (DetectorView {
            tasks: old(det)@.tasks.push(
                TaskView { name: task_name@, awaiting: 0, held: Seq::<HeldLock>::empty() },
            ),
            ..old(det)@
        }),
{
    match current {
        Some(t0) => t0,
        None => det.register_task(task_name),
    }
}

/// Whether a "lock held" warning is warranted: true exactly when the
/// caller runs in a scope whose task currently holds at least one lock.
/// Intended at boundaries where callers should be lock-free.
pub fn warn_lock_held(det: &DeadlockDetector, current: Option<usize>) -> (r: bool)
    requires
        current matches Some(t0) ==> det@.valid_task(t0 as int),
    ensures
        r == (current matches Some(t0) && det@.tasks[t0 as int].holds_any()),
{
    match current {
        None => false,
        Some(t0) => det.has_lock_held(t0),
    }
}

impl DetectorView {
    /// The outcome of a wait registration for `(op, l)` by task `t`: the
    /// pre-acquisition check, then the wait record, installed only if the
    /// task awaits nothing yet.
    pub open spec fn start_wait_outcome(self, t: int, l: int, op: Ops) -> (DetectorView, Result<
        (),
        Error,
    >) {
        if self.check_result(t, l, op) is Err {
            (self, self.check_result(t, l, op))
        } else if self.tasks[t].awaiting != 0 {
            (self, Err(Error::DeadlockDetected))
        } else {
            (self.set_wait(t, self.locks[l].lock_id), Ok(()))
        }
    }
}

/// No more than one wait record can exist for a task at any instant: a
/// task's wait state is the single lock id it awaits, and while one wait
/// stands, registering any further wait — on any lock, in any mode — is
/// refused as `DeadlockDetected` and leaves the detector unchanged.
pub proof fn lemma_at_most_one_wait(v: DetectorView, t: int, l: int, op: Ops)
    requires
        v.valid_task(t),
        v.tasks[t].awaiting != 0,
    ensures
        v.start_wait_outcome(t, l, op).1 is Err,
        v.start_wait_outcome(t, l, op).0 == v,
{
}

/// Round-trip law: every successful acquisition is paired with exactly
/// one bookkeeping release.  Recording a hold appends one entry to the
/// task's held set and one to the lock's holder list; releasing it
/// removes one entry matching the acquisition from each list, and then
/// every held count of the task and every holder count of the lock is
/// back to its value before the acquisition.
pub proof fn lemma_acquire_release_round_trip(
    v: DetectorView,
    tu: usize,
    lu: usize,
    op: Ops,
    i: int,
    j: int,
)
    requires
        v.valid_task(tu as int),
        v.valid_lock(lu as int),
        ({
            let v1 = v.add_hold(tu as int, lu as int, op);
            &&& 0 <= i < v1.tasks[tu as int].held.len()
            &&& v1.tasks[tu as int].held[i] == (HeldLock { lock_id: v.locks[lu as int].lock_id, op })
            &&& 0 <= j < v1.locks[lu as int].holders.len()
            &&& v1.locks[lu as int].holders[j] == tu
        }),
    ensures
        ({
            let v1 = v.add_hold(tu as int, lu as int, op);
            let held2 = v1.tasks[tu as int].held.remove(i);
            let holders2 = v1.locks[lu as int].holders.remove(j);
            &&& forall|id2: u64| #[trigger] count_matching(held2, entry_on(id2))
                == v.tasks[tu as int].held_count(id2)
            &&& forall|t2: usize| #[trigger] count_matching(
                holders2,
                crate::primitives::lock_data::holder_is(t2),
            ) == v.locks[lu as int].holder_count(t2)
        }),
{
    let t = tu as int;
    let l = lu as int;
    let e = HeldLock { lock_id: v.locks[l].lock_id, op };
    let v1 = v.add_hold(t, l, op);
    let held1 = v1.tasks[t].held;
    let holders1 = v1.locks[l].holders;
    assert(held1 == v.tasks[t].held.push(e));
    assert(holders1 == v.locks[l].holders.push(tu));
    assert forall|id2: u64| #[trigger] count_matching(held1.remove(i), entry_on(id2))
        == v.tasks[t].held_count(id2) by {
        lemma_count_push(v.tasks[t].held, entry_on(id2), e);
        lemma_count_remove(held1, entry_on(id2), i);
    }
    assert forall|t2: usize| #[trigger] count_matching(
        holders1.remove(j),
        crate::primitives::lock_data::holder_is(t2),
    ) == v.locks[l].holder_count(t2) by {
        lemma_count_push(v.locks[l].holders, crate::primitives::lock_data::holder_is(t2), tu);
        lemma_count_remove(holders1, crate::primitives::lock_data::holder_is(t2), j);
    }
}

/// Both sides of the compatibility table are the same: whether two holds
/// of one lock by one task may coexist does not depend on their order.
pub proof fn lemma_compatible_symmetric()
    ensures
        forall|a: Ops, b: Ops| #[trigger] a.spec_compatible(b) == b.spec_compatible(a),
{
}

/// Changing only a task's wait record keeps the detector well-formed,
/// provided the recorded id was allocated.
proof fn lemma_wf_with_awaiting(v: DetectorView, t: int, id: u64)
    requires
        v.wf(),
        v.valid_task(t),
        id < v.next_id,
    ensures
        v.with_task(t, TaskView { awaiting: id, ..v.tasks[t] }).wf(),
{
    let post = v.with_task(t, TaskView { awaiting: id, ..v.tasks[t] });
    assert forall|t2: int| post.valid_task(t2) implies (#[trigger] post.tasks[t2]).wf(post.next_id)
        by {
        assert(v.tasks[t2].wf(v.next_id));
    }
    assert forall|l2: int, t2: usize|
        post.valid_lock(l2) && (t2 as int) < post.tasks.len()
            && (#[trigger] post.locks[l2]).lock_id != 0 implies post.locks[l2].holder_count(t2)
        == (#[trigger] post.tasks[t2 as int]).held_count(post.locks[l2].lock_id) by {
        assert(v.locks[l2].holder_count(t2) == v.tasks[t2 as int].held_count(v.locks[l2].lock_id));
        assert(post.tasks[t2 as int].held == v.tasks[t2 as int].held);
    }
}

/// Recording one more hold keeps the detector well-formed, provided the
/// request passed the compatibility check.
proof fn lemma_wf_add_hold(v: DetectorView, tu: usize, lu: usize, op: Ops)
    requires
        v.wf(),
        v.valid_task(tu as int),
        v.valid_lock(lu as int),
        v.locks[lu as int].lock_id != 0,
        v.acquire_compatible(tu as int, lu as int, op),
    ensures
        v.add_hold(tu as int, lu as int, op).wf(),
{
    let t = tu as int;
    let l = lu as int;
    let post = v.add_hold(t, l, op);
    let id = v.locks[l].lock_id;
    let e = HeldLock { lock_id: id, op };
    lemma_compatible_symmetric();
    assert forall|t2: int| post.valid_task(t2) implies (#[trigger] post.tasks[t2]).wf(post.next_id)
        by {
        assert(v.tasks[t2].wf(v.next_id));
        if t2 == t {
            let held1 = post.tasks[t].held;
            assert(held1 == v.tasks[t].held.push(e));
            assert forall|i: int, j: int|
                0 <= i < held1.len() && 0 <= j < held1.len() && i != j
                    && (#[trigger] held1[i]).lock_id == (#[trigger] held1[j]).lock_id implies held1[i].op.spec_compatible(
                held1[j].op,
            ) by {
                if i < held1.len() - 1 && j < held1.len() - 1 {
                    assert(v.tasks[t].conflict_free());
                    assert(held1[i] == v.tasks[t].held[i]);
                    assert(held1[j] == v.tasks[t].held[j]);
                } else if i == held1.len() - 1 {
                    assert(held1[i] == e);
                    assert(held1[j] == v.tasks[t].held[j]);
                    assert(v.acquire_compatible(t, l, op));
                } else {
                    assert(held1[j] == e);
                    assert(held1[i] == v.tasks[t].held[i]);
                }
            }
        }
    }
    assert forall|l2: int, t2: usize|
        post.valid_lock(l2) && (t2 as int) < post.tasks.len()
            && (#[trigger] post.locks[l2]).lock_id != 0 implies post.locks[l2].holder_count(t2)
        == (#[trigger] post.tasks[t2 as int]).held_count(post.locks[l2].lock_id) by {
        assert(v.locks[l2].holder_count(t2) == v.tasks[t2 as int].held_count(v.locks[l2].lock_id));
        if l2 == l {
            assert(post.locks[l2].holders == v.locks[l].holders.push(tu));
            assert(post.locks[l2].lock_id == id);
            lemma_count_push(v.locks[l].holders, crate::primitives::lock_data::holder_is(t2), tu);
            if t2 as int == t {
                assert(t2 == tu);
                assert(post.locks[l2].holder_count(t2) == v.locks[l].holder_count(t2) + 1);
                assert(post.tasks[t2 as int].held == v.tasks[t].held.push(e));
                lemma_count_push(v.tasks[t].held, entry_on(id), e);
                assert(post.tasks[t2 as int].held_count(id) == v.tasks[t].held_count(id) + 1);
            } else {
                assert(t2 != tu);
                assert(post.locks[l2].holder_count(t2) == v.locks[l].holder_count(t2));
                assert(post.tasks[t2 as int] == v.tasks[t2 as int]);
            }
        } else {
            assert(post.locks[l2] == v.locks[l2]);
            if t2 as int == t {
                // The entry pushed for lock `l` carries `l`'s id, which
                // differs from `l2`'s id.
                assert(v.locks[l2].lock_id != id);
                assert(post.tasks[t2 as int].held == v.tasks[t].held.push(e));
                lemma_count_push(v.tasks[t].held, entry_on(v.locks[l2].lock_id), e);
                assert(post.tasks[t2 as int].held_count(post.locks[l2].lock_id)
                    == v.tasks[t].held_count(v.locks[l2].lock_id));
            } else {
                assert(post.tasks[t2 as int] == v.tasks[t2 as int]);
            }
        }
    }
}

/// Releasing one hold keeps the detector well-formed.
proof fn lemma_wf_release(v: DetectorView, post: DetectorView, tu: usize, lu: usize, op: Ops)
    requires
        v.wf(),
        v.valid_task(tu as int),
        v.valid_lock(lu as int),
        v.locks[lu as int].lock_id != 0,
        post.tasks.len() == v.tasks.len(),
        post.locks.len() == v.locks.len(),
        post.next_id == v.next_id,
        forall|t2: int| 0 <= t2 < v.tasks.len() && t2 != tu as int ==> #[trigger] post.tasks[t2] == v.tasks[t2],
        forall|l2: int| 0 <= l2 < v.locks.len() && l2 != lu as int ==> #[trigger] post.locks[l2] == v.locks[l2],
        post.tasks[tu as int].awaiting == v.tasks[tu as int].awaiting,
        post.locks[lu as int].lock_id == v.locks[lu as int].lock_id,
        exists|i: int|
            0 <= i < v.tasks[tu as int].held.len() && post.tasks[tu as int].held == v.tasks[tu as int].held.remove(i),
        exists|j: int|
            0 <= j < v.locks[lu as int].holders.len() && post.locks[lu as int].holders == v.locks[lu as int].holders.remove(
                j,
            ),
        post.tasks[tu as int].held_count(v.locks[lu as int].lock_id) == v.tasks[tu as int].held_count(v.locks[lu as int].lock_id)
            - 1,
        forall|id2: u64| id2 != v.locks[lu as int].lock_id
            ==> #[trigger] post.tasks[tu as int].held_count(id2) == v.tasks[tu as int].held_count(id2),
        post.locks[lu as int].holder_count(tu) == v.locks[lu as int].holder_count(tu) - 1,
        forall|t2: usize| t2 != tu
            ==> #[trigger] post.locks[lu as int].holder_count(t2) == v.locks[lu as int].holder_count(t2),
    ensures
        post.wf(),
{
    let t = tu as int;
    let l = lu as int;
    let id = v.locks[l].lock_id;
    assert forall|l2: int, t2: usize|
        0 <= l2 < post.locks.len() && (t2 as int) < post.tasks.len()
            && (#[trigger] post.locks[l2]).lock_id != 0 implies post.locks[l2].holder_count(t2)
        == (#[trigger] post.tasks[t2 as int]).held_count(post.locks[l2].lock_id) by {
        assert(v.locks[l2].holder_count(t2) == v.tasks[t2 as int].held_count(v.locks[l2].lock_id));
        if l2 == l {
            if t2 as int != t {
                assert(post.tasks[t2 as int] == v.tasks[t2 as int]);
            }
        } else {
            assert(post.locks[l2] == v.locks[l2]);
            if t2 as int == t {
                // Lock ids are distinct, so the count for `l2`'s id is
                // untouched by removing an entry for `l`'s id.
                assert(v.locks[l2].lock_id != id);
            }
        }
    }
    let i = choose|i: int|
        0 <= i < v.tasks[t].held.len() && post.tasks[t].held == v.tasks[t].held.remove(i);
    let j = choose|j: int|
        0 <= j < v.locks[l].holders.len() && post.locks[l].holders == v.locks[l].holders.remove(j);
    assert forall|t2: int| post.valid_task(t2) implies (#[trigger] post.tasks[t2]).wf(post.next_id)
        by {
        assert(v.tasks[t2].wf(v.next_id));
        if t2 == t {
            let held0 = v.tasks[t].held;
            let held1 = post.tasks[t].held;
            assert forall|k: int| 0 <= k < held1.len() implies 1 <= (#[trigger] held1[k]).lock_id
                < post.next_id by {
                if k < i {
                    assert(held1[k] == held0[k]);
                } else {
                    assert(held1[k] == held0[k + 1]);
                }
            }
            assert forall|k1: int, k2: int|
                0 <= k1 < held1.len() && 0 <= k2 < held1.len() && k1 != k2
                    && (#[trigger] held1[k1]).lock_id == (#[trigger] held1[k2]).lock_id implies held1[k1].op.spec_compatible(
                held1[k2].op,
            ) by {
                let m1: int = if k1 < i { k1 } else { k1 + 1 };
                let m2: int = if k2 < i { k2 } else { k2 + 1 };
                assert(held1[k1] == held0[m1]);
                assert(held1[k2] == held0[m2]);
                assert(v.tasks[t].conflict_free());
            }
        }
    }
    assert forall|l2: int, k: int|
        post.valid_lock(l2) && 0 <= k < post.locks[l2].holders.len() implies ((
    #[trigger] post.locks[l2].holders[k]) as int) < post.tasks.len() by {
        if l2 == l {
            let holders0 = v.locks[l].holders;
            if k < j {
                assert(post.locks[l].holders[k] == holders0[k]);
            } else {
                assert(post.locks[l].holders[k] == holders0[k + 1]);
            }
        }
    }
    assert forall|l2: int|
        post.valid_lock(l2) && (#[trigger] post.locks[l2]).lock_id == 0 implies post.locks[l2].holders.len()
        == 0 by {
        if l2 == l {
            assert(v.locks[l].holders.len() == 0);
        }
    }
}

} // verus!
