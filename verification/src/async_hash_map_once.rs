use vstd::prelude::*;

use crate::async_once_cell::AsyncOnceCell;
use crate::hash_map_once::{lookup, unique_keys, HashMapOnce, Drain};

verus! {

/// The value set under `k`: the key must be present and its cell set.
pub open spec fn value_of<V>(s: Seq<(u64, AsyncOnceCell<V>)>, k: u64) -> Option<V> {
    match lookup(s, k) {
        Some(cell) => cell@,
        None => None,
    }
}

/// The set entries of the map, in entry order: unset cells are skipped.
pub open spec fn set_values<V>(s: Seq<(u64, AsyncOnceCell<V>)>) -> Seq<(u64, V)>
    decreases s.len(),
{
    if s.len() == 0 {
        Seq::empty()
    } else {
        match s.last().1@ {
            Some(v) => set_values(s.drop_last()).push((s.last().0, v)),
            None => set_values(s.drop_last()),
        }
    }
}

/// A keyed map of at-most-once cells: each key owns a cell whose value
/// is set at most once.  An asynchronous driver keeps the map section
/// short — a cell is created under the map lock, but initialized after
/// it is released, so initialization may suspend freely.
pub struct AsyncHashMapOnce<V> {
    cells: HashMapOnce<AsyncOnceCell<V>>,
}

impl<V> View for AsyncHashMapOnce<V> {
    type V = Seq<(u64, AsyncOnceCell<V>)>;

    closed spec fn view(&self) -> Seq<(u64, AsyncOnceCell<V>)> {
        self.cells@
    }
}

impl<V> AsyncHashMapOnce<V> {
    /// An empty map.
    pub fn new() -> (r: AsyncHashMapOnce<V>)
        ensures
            r@ == Seq::<(u64, AsyncOnceCell<V>)>::empty(),
            unique_keys(r@),
    {
        AsyncHashMapOnce { cells: HashMapOnce::new() }
    }

    /// The value set under `key`, if the key exists and its cell is set.
    pub fn get(&self, key: u64) -> (r: Option<&V>)
        requires
            unique_keys(self@),
        ensures
            r is Some <==> value_of(self@, key) is Some,
            r matches Some(v) ==> value_of(self@, key) == Some(*v),
    {
        match self.cells.get(key) {
            None => None,
            Some(cell) => cell.get(),
        }
    }

    /// Ensures `key` owns a cell, creating an empty one if the key is
    /// vacant.  Creating the cell sets no value: the cell's content
    /// alone decides at-most-once initialization.
    fn ensure_cell(&mut self, key: u64)
        requires
            unique_keys(old(self)@),
        ensures
            unique_keys(final(self)@),
            lookup(final(self)@, key) is Some,
            lookup(old(self)@, key) is Some ==> final(self)@ == old(self)@,
            lookup(old(self)@, key) is None ==> exists|c: AsyncOnceCell<V>|
                c@ is None && final(self)@ == old(self)@.push((key, c)),
            forall|k2: u64| #[trigger] value_of(final(self)@, k2) == value_of(old(self)@, k2)
                || (k2 == key && value_of(old(self)@, k2) is None),
    {
        proof {
            crate::hash_map_once::lemma_lookup_positive(self@, key);
        }
        if self.cells.get(key).is_none() {
            let cell = AsyncOnceCell::new();
            let ghost c = cell;
            let _ = self.cells.set(key, cell);
            proof {
                assert forall|k2: u64| #[trigger] value_of(final(self)@, k2) == value_of(
                    old(self)@,
                    k2,
                ) || (k2 == key && value_of(old(self)@, k2) is None) by {
                    crate::hash_map_once::lemma_lookup_push(old(self)@, key, c, k2);
                }
                crate::hash_map_once::lemma_lookup_push(old(self)@, key, c, key);
            }
        }
    }

    /// Sets the value under `key` to the result of `f` unless one is
    /// already set: the mutation half of `get_or_init`.
    fn ensure_value<F: FnOnce() -> V>(&mut self, key: u64, f: F)
        requires
            unique_keys(old(self)@),
            value_of(old(self)@, key) is None ==> call_requires(f, ()),
        ensures
            unique_keys(final(self)@),
            value_of(old(self)@, key) matches Some(v) ==> value_of(final(self)@, key) == Some(v),
            value_of(old(self)@, key) is None ==> exists|v: V|
                call_ensures(f, (), v) && value_of(final(self)@, key) == Some(v),
            value_of(final(self)@, key) is Some,
            forall|k2: u64| k2 != key ==> #[trigger] value_of(final(self)@, k2) == value_of(
                old(self)@,
                k2,
            ),
    {
        self.ensure_cell(key);
        let ghost pre = self@;
        proof {
            crate::hash_map_once::lemma_lookup_positive(pre, key);
        }
        let cell = match self.cells.get_mut(key) {
            Some(cell) => cell,
            None => {
                proof {
                    assert(false);
                }
                unreached()
            },
        };
        let ghost cpre = *cell;
        if cell.get().is_none() {
            let v = f();
            let _ = cell.init_once(v);
        }
        proof {
            let j = choose|j: int|
                0 <= j < pre.len() && pre[j].0 == key && final(self)@ == pre.update(
                    j,
                    (key, *final(cell)),
                );
            crate::hash_map_once::lemma_lookup_at(pre, j);
            crate::hash_map_once::lemma_lookup_update(pre, j, *final(cell), key);
            assert forall|k2: u64| k2 != key implies #[trigger] value_of(final(self)@, k2)
                == value_of(pre, k2) by {
                crate::hash_map_once::lemma_lookup_update(pre, j, *final(cell), k2);
            }
        }
    }

    /// The value set under `key`, or the result of `f`, set first: per
    /// key, the initializer's result is kept at most once.
    pub fn get_or_init<F: FnOnce() -> V>(&mut self, key: u64, f: F) -> (r: &V)
        requires
            unique_keys(old(self)@),
            value_of(old(self)@, key) is None ==> call_requires(f, ()),
        ensures
            unique_keys(final(self)@),
            value_of(old(self)@, key) matches Some(v) ==> *r == v,
            value_of(old(self)@, key) is None ==> call_ensures(f, (), *r),
            value_of(final(self)@, key) == Some(*r),
            forall|k2: u64| k2 != key ==> #[trigger] value_of(final(self)@, k2) == value_of(
                old(self)@,
                k2,
            ),
    {
        self.ensure_value(key, f);
        match self.get(key) {
            Some(v) => v,
            None => {
                proof {
                    assert(false);
                }
                unreached()
            },
        }
    }

    /// Stores `value` under `key` in a fresh, already set cell,
    /// returning the value previously set under the key, if any.
    pub fn insert(&mut self, key: u64, value: V) -> (r: Option<V>)
        requires
            unique_keys(old(self)@),
        ensures
            unique_keys(final(self)@),
            r == value_of(old(self)@, key),
            value_of(final(self)@, key) == Some(value),
            forall|k2: u64| k2 != key ==> #[trigger] value_of(final(self)@, k2) == value_of(
                old(self)@,
                k2,
            ),
    {
        let displaced = self.cells.insert(key, AsyncOnceCell::with_val(value));
        match displaced {
            None => None,
            Some(cell) => cell.into_inner(),
        }
    }

    /// Removes the entry under `key`, returning the value set in its
    /// cell, if any.
    pub fn remove(&mut self, key: u64) -> (r: Option<V>)
        requires
            unique_keys(old(self)@),
        ensures
            unique_keys(final(self)@),
            r == value_of(old(self)@, key),
            value_of(final(self)@, key) is None,
            forall|k2: u64| k2 != key ==> #[trigger] value_of(final(self)@, k2) == value_of(
                old(self)@,
                k2,
            ),
    {
        match self.cells.remove(key) {
            None => None,
            Some(cell) => cell.into_inner(),
        }
    }

    /// Removes every entry.
    pub fn clear(&mut self)
        ensures
            final(self)@ == Seq::<(u64, AsyncOnceCell<V>)>::empty(),
            unique_keys(final(self)@),
    {
        self.cells.clear();
    }

    /// Removes every entry, handing out the set values by value; unset
    /// cells are dropped.
    pub fn drain(&mut self) -> (r: Drain<V>)
        requires
            unique_keys(old(self)@),
        ensures
            final(self)@ == Seq::<(u64, AsyncOnceCell<V>)>::empty(),
            unique_keys(final(self)@),
            r@ == set_values(old(self)@),
    {
        let mut inner = self.cells.drain();
        let ghost all = old(self)@;
        let mut out: Vec<(u64, V)> = Vec::new();
        let ghost consumed: int = 0;
        let mut i: usize = 0;
        let n = inner.len();
        proof {
            assert(all.take(0) =~= Seq::<(u64, AsyncOnceCell<V>)>::empty());
            assert(out@ =~= set_values(all.take(0)));
        }
        while i < n
            invariant
                n == all.len(),
                0 <= i <= n,
                inner@ == all.skip(i as int),
                out@ == set_values(all.take(i as int)),
            decreases n - i,
        {
            let e = match inner.next() {
                Some(e) => e,
                None => {
                    proof {
                        assert(all.skip(i as int).len() > 0);
                        assert(false);
                    }
                    unreached()
                },
            };
            proof {
                assert(all.skip(i as int).first() == all[i as int]);
                assert(all.skip(i as int).drop_first() =~= all.skip(i + 1));
            }
            match e.1.into_inner() {
                Some(v) => {
                    out.push((e.0, v));
                },
                None => (),
            }
            proof {
                assert(all.take(i + 1).drop_last() =~= all.take(i as int));
                assert(all.take(i + 1).last() == all[i as int]);
            }
            i += 1;
        }
        proof {
            assert(all.take(n as int) =~= all);
        }
        Drain::from_items(out)
    }
}

impl<V> Default for AsyncHashMapOnce<V> {
    /// An empty map.
    fn default() -> (r: Self)
        ensures
            r@ == Seq::<(u64, AsyncOnceCell<V>)>::empty(),
            unique_keys(r@),
    {
        AsyncHashMapOnce::new()
    }
}

} // verus!
