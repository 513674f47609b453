use vstd::prelude::*;

use crate::counting::{count_matching, lemma_count_remove, lemma_count_positive,
    remove_first_matching, lemma_remove_first_is_remove_at};
use crate::error::Error;
use crate::primitives::ops::Ops;

verus! {

/// One entry of a task's held set: a lock, held in a mode.
#[derive(Clone, Copy, Debug, PartialEq, Eq, Structural)]
pub struct HeldLock {
    /// The id of the held lock.
    pub lock_id: u64,
    /// The mode in which it is held.
    pub op: Ops,
}

/// The abstract state of a task context: its name, the single lock id it
/// is currently awaiting (0 for none), and the multiset of locks it holds,
/// recorded as a sequence of entries.
#[verifier::ext_equal]
pub struct TaskView {
    /// The task's display name.
    pub name: Seq<char>,
    /// The one lock the task is blocked on, or 0.
    pub awaiting: u64,
    /// The locks the task currently holds, in acquisition order.
    pub held: Seq<HeldLock>,
}

/// The predicate "this held entry refers to `lock_id`".
pub open spec fn entry_on(lock_id: u64) -> spec_fn(HeldLock) -> bool {
    |e: HeldLock| e.lock_id == lock_id
}

/// The predicate "this held entry equals `e`".
pub open spec fn entry_is(e: HeldLock) -> spec_fn(HeldLock) -> bool {
    |x: HeldLock| x == e
}

impl TaskView {
    /// How many held entries refer to `lock_id`, in any mode.
    pub open spec fn held_count(self, lock_id: u64) -> nat {
        count_matching(self.held, entry_on(lock_id))
    }

    /// How many held entries equal `e` exactly.
    pub open spec fn entry_count(self, e: HeldLock) -> nat {
        count_matching(self.held, entry_is(e))
    }

    /// Whether the task holds any lock at all.
    pub open spec fn holds_any(self) -> bool {
        self.held.len() > 0
    }

    /// Whether a new request for `lock_id` in mode `op` is compatible with
    /// everything the task already holds on that lock.
    pub open spec fn compatible_with(self, lock_id: u64, op: Ops) -> bool {
        forall|i: int|
            0 <= i < self.held.len() && (#[trigger] self.held[i]).lock_id == lock_id
                ==> self.held[i].op.spec_compatible(op)
    }

    /// No two held entries on the same lock are in incompatible modes.
    pub open spec fn conflict_free(self) -> bool {
        forall|i: int, j: int|
            0 <= i < self.held.len() && 0 <= j < self.held.len() && i != j
                && (#[trigger] self.held[i]).lock_id == (#[trigger] self.held[j]).lock_id
                ==> self.held[i].op.spec_compatible(self.held[j].op)
    }

    /// Well-formedness against the id allocator: every recorded lock id
    /// was allocated (ids start at 1 and stay below `next_id`), and the
    /// held set is free of mode conflicts.
    pub open spec fn wf(self, next_id: u64) -> bool {
        &&& forall|i: int|
            0 <= i < self.held.len() ==> 1 <= (#[trigger] self.held[i]).lock_id < next_id
        &&& self.awaiting < next_id
        &&& self.conflict_free()
    }
}

/// A task context: the record the deadlock detector keeps for one task in
/// a deadlock-check scope.
pub struct Task {
    name: String,
    await_lock_id: u64,
    held_locks: Vec<HeldLock>,
}

impl View for Task {
    type V = TaskView;

    closed spec fn view(&self) -> TaskView {
        TaskView { name: self.name@, awaiting: self.await_lock_id, held: self.held_locks@ }
    }
}

impl Task {
    /// A fresh task context: awaiting nothing, holding nothing.
    pub fn new(name: String) -> (t: Task)
        ensures
            t@.name == name@,
            t@.awaiting == 0,
            t@.held == Seq::<HeldLock>::empty(),
    {
        let t = Task { name, await_lock_id: 0, held_locks: Vec::new() };
        proof {
            assert(t@.held =~= Seq::<HeldLock>::empty());
        }
        t
    }

    /// The one lock id the task is currently awaiting, or 0.
    pub fn await_lock_id(&self) -> (r: u64)
        ensures
            r == self@.awaiting,
    {
        self.await_lock_id
    }

    /// Stops recording a wait: the task awaits nothing.
    pub fn clear_await_lock_id(&mut self)
        ensures
            final(self)@ == (TaskView { awaiting: 0, ..old(self)@ }),
    {
        self.await_lock_id = 0;
    }

    /// Records that the task starts awaiting `lock_id`.  A task may await
    /// at most one lock: if it is already awaiting one, the request is an
    /// illegal re-entry and is refused as `DeadlockDetected`, leaving the
    /// record unchanged.
    pub fn set_await_lock_id(&mut self, lock_id: u64) -> (r: Result<(), Error>)
        ensures
            old(self)@.awaiting == 0 ==> r is Ok && final(self)@ == (TaskView {
                awaiting: lock_id,
                ..old(self)@
            }),
            old(self)@.awaiting != 0 ==> r == Err::<(), Error>(Error::DeadlockDetected)
                && final(self)@ == old(self)@,
    {
        if self.await_lock_id == 0 {
            self.await_lock_id = lock_id;
            Ok(())
        } else {
            Err(Error::DeadlockDetected)
        }
    }

    /// Adds one held entry for `lock_id` in mode `op`.
    pub fn add_lock(&mut self, lock_id: u64, op: Ops)
        ensures
            final(self)@ == (TaskView {
                held: old(self)@.held.push(HeldLock { lock_id, op }),
                ..old(self)@
            }),
    {
        self.held_locks.push(HeldLock { lock_id, op });
    }

    /// Removes one held entry equal to `(lock_id, op)`, the earliest if
    /// several; returns whether one was found.
    pub fn remove_lock(&mut self, lock_id: u64, op: Ops) -> (r: bool)
        ensures
            r == (old(self)@.entry_count(HeldLock { lock_id, op }) > 0),
            !r ==> final(self)@ == old(self)@,
            final(self)@.name == old(self)@.name,
            final(self)@.awaiting == old(self)@.awaiting,
            r ==> final(self)@.held == remove_first_matching(
                old(self)@.held,
                entry_is(HeldLock { lock_id, op }),
            ),
            r ==> exists|i: int|
                0 <= i < old(self)@.held.len() && old(self)@.held[i] == (HeldLock { lock_id, op })
                    && final(self)@.held == old(self)@.held.remove(i),
            r ==> final(self)@.entry_count(HeldLock { lock_id, op })
                == old(self)@.entry_count(HeldLock { lock_id, op }) - 1,
            r ==> final(self)@.held_count(lock_id) == old(self)@.held_count(lock_id) - 1,
            forall|id2: u64| id2 != lock_id
                ==> #[trigger] final(self)@.held_count(id2) == old(self)@.held_count(id2),
    {
        let ghost e = HeldLock { lock_id, op };
        let n = self.held_locks.len();
        let mut i: usize = 0;
        while i < n
            invariant
                self@ == old(self)@,
                e == (HeldLock { lock_id, op }),
                n == self.held_locks@.len(),
                0 <= i <= n,
                forall|j: int| 0 <= j < i ==> self.held_locks@[j] != e,
            decreases n - i,
        {
            let entry = self.held_locks[i];
            if entry.lock_id == lock_id && entry.op == op {
                proof {
                    let held0 = old(self)@.held;
                    assert(held0[i as int] == e);
                    lemma_count_positive(held0, entry_is(e));
                    lemma_count_remove(held0, entry_is(e), i as int);
                    lemma_count_remove(held0, entry_on(lock_id), i as int);
                    lemma_remove_first_is_remove_at(held0, entry_is(e), i as int);
                }
                self.held_locks.remove(i);
                proof {
                    let held0 = old(self)@.held;
                    assert forall|id2: u64| id2 != lock_id implies
                        #[trigger] final(self)@.held_count(id2) == old(self)@.held_count(id2) by {
                        lemma_count_remove(held0, entry_on(id2), i as int);
                    }
                }
                return true;
            }
            i += 1;
        }
        proof {
            lemma_count_positive(self@.held, entry_is(e));
            assert(forall|j: int| 0 <= j < self@.held.len() ==> self@.held[j] != e);
        }
        false
    }

    /// Whether the task currently holds any lock.
    pub fn has_lock_held(&self) -> (r: bool)
        ensures
            r == self@.holds_any(),
    {
        self.held_locks.len() > 0
    }

    /// Whether the task holds `lock_id` in any mode.
    pub fn holds_lock(&self, lock_id: u64) -> (r: bool)
        ensures
            r == (self@.held_count(lock_id) > 0),
    {
        let n = self.held_locks.len();
        let mut i: usize = 0;
        while i < n
            invariant
                n == self.held_locks@.len(),
                0 <= i <= n,
                forall|j: int| 0 <= j < i ==> (#[trigger] self.held_locks@[j]).lock_id != lock_id,
            decreases n - i,
        {
            if self.held_locks[i].lock_id == lock_id {
                proof {
                    lemma_count_positive(self@.held, entry_on(lock_id));
                }
                return true;
            }
            i += 1;
        }
        proof {
            lemma_count_positive(self@.held, entry_on(lock_id));
        }
        false
    }

    /// Whether a new request for `lock_id` in mode `op` is compatible
    /// with every entry the task already holds on that lock.
    pub fn check_compatible(&self, lock_id: u64, op: Ops) -> (r: bool)
        ensures
            r == self@.compatible_with(lock_id, op),
    {
        let n = self.held_locks.len();
        let mut i: usize = 0;
        while i < n
            invariant
                n == self.held_locks@.len(),
                0 <= i <= n,
                forall|j: int|
                    0 <= j < i && (#[trigger] self.held_locks@[j]).lock_id == lock_id
                        ==> self.held_locks@[j].op.spec_compatible(op),
            decreases n - i,
        {
            let entry = self.held_locks[i];
            if entry.lock_id == lock_id && !entry.op.compatible(op) {
                return false;
            }
            i += 1;
        }
        true
    }
}

} // verus!
