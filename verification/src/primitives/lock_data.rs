use vstd::prelude::*;

use crate::counting::{count_matching, lemma_count_remove, lemma_count_positive,
    remove_first_matching, lemma_remove_first_is_remove_at};

verus! {

/// The abstract state of a lock descriptor: its id (0 until first use),
/// its display name, and the tasks currently holding it, one entry per
/// outstanding hold.
#[verifier::ext_equal]
pub struct LockDataView {
    /// The process-unique id, or 0 while not yet assigned.
    pub lock_id: u64,
    /// The lock's display name.
    pub name: Seq<char>,
    /// The tasks holding the lock, one entry per hold, in grant order.
    pub holders: Seq<usize>,
}

/// The predicate "this holder entry is task `t`".
pub open spec fn holder_is(t: usize) -> spec_fn(usize) -> bool {
    |x: usize| x == t
}

impl LockDataView {
    /// How many outstanding holds task `t` has on this lock.
    pub open spec fn holder_count(self, t: usize) -> nat {
        count_matching(self.holders, holder_is(t))
    }
}

/// A lock descriptor: the per-lock record the deadlock detector keeps.
/// Its id is assigned lazily, on the first detector consultation.
pub struct LockData {
    lock_id: u64,
    name: String,
    holders: Vec<usize>,
}

impl View for LockData {
    type V = LockDataView;

    closed spec fn view(&self) -> LockDataView {
        LockDataView { lock_id: self.lock_id, name: self.name@, holders: self.holders@ }
    }
}

impl LockData {
    /// A fresh descriptor with no id and no holders.
    pub fn new(name: String) -> (l: LockData)
        ensures
            l@.lock_id == 0,
            l@.name == name@,
            l@.holders == Seq::<usize>::empty(),
    {
        let l = LockData { lock_id: 0, name, holders: Vec::new() };
        proof {
            assert(l@.holders =~= Seq::<usize>::empty());
        }
        l
    }

    /// The currently recorded id; 0 means not yet assigned.
    pub fn id(&self) -> (r: u64)
        ensures
            r == self@.lock_id,
    {
        self.lock_id
    }

    /// Records the lazily assigned id.
    pub(crate) fn set_id(&mut self, id: u64)
        ensures
            final(self)@ == (LockDataView { lock_id: id, ..old(self)@ }),
    {
        self.lock_id = id;
    }

    /// Records that task `t` now holds this lock (once more).
    pub fn add_task(&mut self, t: usize)
        ensures
            final(self)@ == (LockDataView { holders: old(self)@.holders.push(t), ..old(self)@ }),
    {
        self.holders.push(t);
    }

    /// Removes one holder entry for task `t`, the earliest if several;
    /// returns whether one was found.
    pub fn remove_task(&mut self, t: usize) -> (r: bool)
        ensures
            r == (old(self)@.holder_count(t) > 0),
            !r ==> final(self)@ == old(self)@,
            final(self)@.name == old(self)@.name,
            final(self)@.lock_id == old(self)@.lock_id,
            r ==> final(self)@.holders == remove_first_matching(old(self)@.holders, holder_is(t)),
            r ==> exists|i: int|
                0 <= i < old(self)@.holders.len() && old(self)@.holders[i] == t
                    && final(self)@.holders == old(self)@.holders.remove(i),
            r ==> final(self)@.holder_count(t) == old(self)@.holder_count(t) - 1,
            forall|t2: usize| t2 != t
                ==> #[trigger] final(self)@.holder_count(t2) == old(self)@.holder_count(t2),
    {
        let n = self.holders.len();
        let mut i: usize = 0;
        while i < n
            invariant
                self@ == old(self)@,
                n == self.holders@.len(),
                0 <= i <= n,
                forall|j: int| 0 <= j < i ==> self.holders@[j] != t,
            decreases n - i,
        {
            if self.holders[i] == t {
                proof {
                    let holders0 = old(self)@.holders;
                    lemma_count_positive(holders0, holder_is(t));
                    lemma_count_remove(holders0, holder_is(t), i as int);
                    lemma_remove_first_is_remove_at(holders0, holder_is(t), i as int);
                }
                self.holders.remove(i);
                proof {
                    let holders0 = old(self)@.holders;
                    assert forall|t2: usize| t2 != t implies
                        #[trigger] final(self)@.holder_count(t2) == old(self)@.holder_count(t2) by {
                        lemma_count_remove(holders0, holder_is(t2), i as int);
                    }
                }
                return true;
            }
            i += 1;
        }
        proof {
            lemma_count_positive(self@.holders, holder_is(t));
        }
        false
    }

    /// How many holder entries the lock currently has.
    pub fn holders_len(&self) -> (n: usize)
        ensures
            n == self@.holders.len(),
    {
        self.holders.len()
    }

    /// The task named by the `i`-th holder entry.
    pub fn holder_at(&self, i: usize) -> (t: usize)
        requires
            i < self@.holders.len(),
        ensures
            t == self@.holders[i as int],
    {
        self.holders[i]
    }

    /// How many outstanding holds task `t` has on this lock.
    pub fn holder_count(&self, t: usize) -> (r: usize)
        ensures
            r == self@.holder_count(t),
    {
        let n = self.holders.len();
        let mut i: usize = 0;
        let mut c: usize = 0;
        while i < n
            invariant
                n == self.holders@.len(),
                0 <= i <= n,
                c == count_matching(self.holders@.take(i as int), holder_is(t)),
                c <= i,
            decreases n - i,
        {
            proof {
                assert(self.holders@.take(i + 1).drop_last() =~= self.holders@.take(i as int));
                assert(self.holders@.take(i + 1).last() == self.holders@[i as int]);
            }
            if self.holders[i] == t {
                c += 1;
            }
            i += 1;
        }
        proof {
            assert(self.holders@.take(n as int) =~= self.holders@);
        }
        c
    }
}

} // verus!
