use vstd::prelude::*;

verus! {

/// The value stored under `k`, if any.  Entries are looked up from the
/// back, but under the key-uniqueness invariant the position does not
/// matter.
pub open spec fn lookup<V>(s: Seq<(u64, V)>, k: u64) -> Option<V>
    decreases s.len(),
{
    if s.len() == 0 {
        None
    } else if s.last().0 == k {
        Some(s.last().1)
    } else {
        lookup(s.drop_last(), k)
    }
}

/// Every key appears at most once.
pub open spec fn unique_keys<V>(s: Seq<(u64, V)>) -> bool {
    forall|i: int, j: int|
        0 <= i < s.len() && 0 <= j < s.len() && i != j ==> (#[trigger] s[i]).0 != (
        #[trigger] s[j]).0
}

/// A key is stored exactly when some entry carries it.
pub proof fn lemma_lookup_positive<V>(s: Seq<(u64, V)>, k: u64)
    ensures
        lookup(s, k) is Some <==> exists|i: int| 0 <= i < s.len() && (#[trigger] s[i]).0 == k,
    decreases s.len(),
{
    if s.len() > 0 {
        lemma_lookup_positive(s.drop_last(), k);
        if s.last().0 == k {
            assert(s[s.len() - 1].0 == k);
        } else if exists|i: int| 0 <= i < s.len() && (#[trigger] s[i]).0 == k {
            let i = choose|i: int| 0 <= i < s.len() && (#[trigger] s[i]).0 == k;
            assert(s.drop_last()[i] == s[i]);
        }
    }
}

/// Under unique keys, any entry that carries `k` is the looked-up one.
pub proof fn lemma_lookup_at<V>(s: Seq<(u64, V)>, i: int)
    requires
        unique_keys(s),
        0 <= i < s.len(),
    ensures
        lookup(s, s[i].0) == Some(s[i].1),
    decreases s.len(),
{
    if i == s.len() - 1 {
    } else {
        assert(s.last().0 != s[i].0);
        assert(s.drop_last()[i] == s[i]);
        lemma_lookup_at(s.drop_last(), i);
    }
}

/// Appending a fresh entry stores its key and leaves every other key
/// unchanged.
pub proof fn lemma_lookup_push<V>(s: Seq<(u64, V)>, k: u64, v: V, k2: u64)
    ensures
        k2 == k ==> lookup(s.push((k, v)), k2) == Some(v),
        k2 != k ==> lookup(s.push((k, v)), k2) == lookup(s, k2),
{
    assert(s.push((k, v)).drop_last() =~= s);
}

/// Replacing the entry at `i` in place stores the new value under its
/// key and leaves every other key unchanged.
pub proof fn lemma_lookup_update<V>(s: Seq<(u64, V)>, i: int, v: V, k2: u64)
    requires
        unique_keys(s),
        0 <= i < s.len(),
    ensures
        k2 == s[i].0 ==> lookup(s.update(i, (s[i].0, v)), k2) == Some(v),
        k2 != s[i].0 ==> lookup(s.update(i, (s[i].0, v)), k2) == lookup(s, k2),
        unique_keys(s.update(i, (s[i].0, v))),
    decreases s.len(),
{
    let s2 = s.update(i, (s[i].0, v));
    assert forall|a: int, b: int|
        0 <= a < s2.len() && 0 <= b < s2.len() && a != b implies (#[trigger] s2[a]).0 != (
    #[trigger] s2[b]).0 by {
        assert(s2[a].0 == s[a].0 && s2[b].0 == s[b].0);
    }
    if i == s.len() - 1 {
        assert(s2.drop_last() =~= s.drop_last());
    } else {
        assert(s2.drop_last() =~= s.drop_last().update(i, (s[i].0, v)));
        assert(s2.last() == s.last());
        assert(s.last().0 != s[i].0);
        lemma_lookup_update(s.drop_last(), i, v, k2);
    }
}

/// Removing the entry at `i` forgets its key and leaves every other key
/// unchanged.
pub proof fn lemma_lookup_remove<V>(s: Seq<(u64, V)>, i: int, k2: u64)
    requires
        unique_keys(s),
        0 <= i < s.len(),
    ensures
        k2 == s[i].0 ==> lookup(s.remove(i), k2) is None,
        k2 != s[i].0 ==> lookup(s.remove(i), k2) == lookup(s, k2),
        unique_keys(s.remove(i)),
    decreases s.len(),
{
    let s2 = s.remove(i);
    assert forall|a: int, b: int|
        0 <= a < s2.len() && 0 <= b < s2.len() && a != b implies (#[trigger] s2[a]).0 != (
    #[trigger] s2[b]).0 by {
        let a0: int = if a < i {
            a
        } else {
            a + 1
        };
        let b0: int = if b < i {
            b
        } else {
            b + 1
        };
        assert(s2[a] == s[a0] && s2[b] == s[b0]);
    }
    if k2 == s[i].0 {
        lemma_lookup_positive(s2, k2);
        if exists|j: int| 0 <= j < s2.len() && (#[trigger] s2[j]).0 == k2 {
            let j = choose|j: int| 0 <= j < s2.len() && (#[trigger] s2[j]).0 == k2;
            let j0: int = if j < i {
                j
            } else {
                j + 1
            };
            assert(s[j0].0 == k2 && j0 != i);
        }
    } else {
        if i == s.len() - 1 {
            assert(s2 =~= s.drop_last());
        } else {
            assert(s2.drop_last() =~= s.drop_last().remove(i));
            assert(s2.last() == s.last());
            lemma_lookup_remove(s.drop_last(), i, k2);
        }
    }
}

/// A map whose entries, once set, stay until explicitly removed: the
/// keyed store behind the once-initialization maps.  Keys are 64-bit
/// integers; entries are kept as an association list with unique keys.
pub struct HashMapOnce<V> {
    entries: Vec<(u64, V)>,
}

impl<V> View for HashMapOnce<V> {
    type V = Seq<(u64, V)>;

    closed spec fn view(&self) -> Seq<(u64, V)> {
        self.entries@
    }
}

/// The entries drained out of a map, handed out one by one.
pub struct Drain<V> {
    items: Vec<(u64, V)>,
}

impl<V> View for Drain<V> {
    type V = Seq<(u64, V)>;

    closed spec fn view(&self) -> Seq<(u64, V)> {
        self.items@
    }
}

impl<V> Drain<V> {
    /// Wraps a ready list of entries.
    pub(crate) fn from_items(items: Vec<(u64, V)>) -> (r: Drain<V>)
        ensures
            r@ == items@,
    {
        Drain { items }
    }

    /// How many entries are left to hand out.
    pub fn len(&self) -> (n: usize)
        ensures
            n == self@.len(),
    {
        self.items.len()
    }

    /// The next entry from the front.
    pub fn next(&mut self) -> (r: Option<(u64, V)>)
        ensures
            old(self)@.len() == 0 ==> r is None && final(self)@ == old(self)@,
            old(self)@.len() > 0 ==> r == Some(old(self)@.first()) && final(self)@ == old(
                self,
            )@.drop_first(),
    {
        if self.items.len() == 0 {
            None
        } else {
            let e = self.items.remove(0);
            Some(e)
        }
    }

    /// The next entry from the back.
    pub fn next_back(&mut self) -> (r: Option<(u64, V)>)
        ensures
            old(self)@.len() == 0 ==> r is None && final(self)@ == old(self)@,
            old(self)@.len() > 0 ==> r == Some(old(self)@.last()) && final(self)@ == old(
                self,
            )@.drop_last(),
    {
        let r = self.items.pop();
        proof {
            if old(self)@.len() > 0 {
                assert(final(self)@ =~= old(self)@.drop_last());
            }
        }
        r
    }
}

impl<V> HashMapOnce<V> {
    /// An empty map.
    pub fn new() -> (r: HashMapOnce<V>)
        ensures
            r@ == Seq::<(u64, V)>::empty(),
            unique_keys(r@),
    {
        let r = HashMapOnce { entries: Vec::new() };
        proof {
            assert(r@ =~= Seq::<(u64, V)>::empty());
        }
        r
    }

    /// How many entries the map holds.
    pub fn len(&self) -> (n: usize)
        ensures
            n == self@.len(),
    {
        self.entries.len()
    }

    /// The index of the entry carrying `key`, if any.
    fn find(&self, key: u64) -> (r: Option<usize>)
        ensures
            r matches Some(i) ==> i < self@.len() && self@[i as int].0 == key,
            r is None ==> forall|j: int| 0 <= j < self@.len() ==> (#[trigger] self@[j]).0 != key,
    {
        let n = self.entries.len();
        let mut i: usize = 0;
        while i < n
            invariant
                n == self@.len(),
                0 <= i <= n,
                forall|j: int| 0 <= j < i ==> (#[trigger] self@[j]).0 != key,
            decreases n - i,
        {
            if self.entries[i].0 == key {
                return Some(i);
            }
            i += 1;
        }
        None
    }

    /// The value stored under `key`, if any.
    pub fn get(&self, key: u64) -> (r: Option<&V>)
        requires
            unique_keys(self@),
        ensures
            r is Some <==> lookup(self@, key) is Some,
            r matches Some(v) ==> lookup(self@, key) == Some(*v),
    {
        proof {
            lemma_lookup_positive(self@, key);
        }
        match self.find(key) {
            None => None,
            Some(i) => {
                proof {
                    lemma_lookup_at(self@, i as int);
                }
                Some(&self.entries[i].1)
            },
        }
    }

    /// A mutable reference to the value stored under `key`, if any.
    /// The entry keeps its key; how the stored values read afterwards
    /// follows with `lemma_lookup_update`.
    pub fn get_mut(&mut self, key: u64) -> (r: Option<&mut V>)
        requires
            unique_keys(old(self)@),
        ensures
            r is Some <==> lookup(old(self)@, key) is Some,
            r is None ==> final(self)@ == old(self)@,
            r matches Some(v) ==> lookup(old(self)@, key) == Some(*v) && exists|i: int|
                0 <= i < old(self)@.len() && old(self)@[i].0 == key && final(self)@ == old(
                    self,
                )@.update(i, (key, *final(v))),
    {
        proof {
            lemma_lookup_positive(self@, key);
        }
        match self.find(key) {
            None => None,
            Some(i) => {
                proof {
                    lemma_lookup_at(self@, i as int);
                }
                let entry = &mut self.entries[i];
                Some(&mut entry.1)
            },
        }
    }

    /// Stores `value` under `key`, returning the displaced value if the
    /// key was already present.
    pub fn insert(&mut self, key: u64, value: V) -> (r: Option<V>)
        requires
            unique_keys(old(self)@),
        ensures
            unique_keys(final(self)@),
            r == lookup(old(self)@, key),
            lookup(final(self)@, key) == Some(value),
            forall|k2: u64| k2 != key ==> #[trigger] lookup(final(self)@, k2) == lookup(
                old(self)@,
                k2,
            ),
    {
        proof {
            lemma_lookup_positive(self@, key);
        }
        match self.find(key) {
            None => {
                self.entries.push((key, value));
                proof {
                    assert forall|k2: u64| true implies #[trigger] lookup(final(self)@, k2)
                        == lookup(old(self)@.push((key, value)), k2) by {}
                    assert forall|k2: u64| k2 != key implies #[trigger] lookup(final(self)@, k2)
                        == lookup(old(self)@, k2) by {
                        lemma_lookup_push(old(self)@, key, value, k2);
                    }
                    lemma_lookup_push(old(self)@, key, value, key);
                    let s2 = final(self)@;
                    assert forall|a: int, b: int|
                        0 <= a < s2.len() && 0 <= b < s2.len() && a != b implies (
                    #[trigger] s2[a]).0 != (#[trigger] s2[b]).0 by {
                        lemma_lookup_positive(old(self)@, key);
                        if a < s2.len() - 1 && b < s2.len() - 1 {
                            assert(s2[a] == old(self)@[a] && s2[b] == old(self)@[b]);
                        } else if a == s2.len() - 1 {
                            assert(s2[b] == old(self)@[b]);
                        } else {
                            assert(s2[a] == old(self)@[a]);
                        }
                    }
                }
                None
            },
            Some(i) => {
                proof {
                    lemma_lookup_at(self@, i as int);
                }
                let ghost mid = self@.remove(i as int);
                let old_entry = self.entries.remove(i);
                proof {
                    assert forall|k2: u64| true implies unique_keys(mid) && (k2 != key
                        ==> #[trigger] lookup(mid, k2) == lookup(old(self)@, k2)) && (k2 == key
                        ==> lookup(mid, k2) is None) by {
                        lemma_lookup_remove(old(self)@, i as int, k2);
                    }
                }
                self.entries.push((key, value));
                proof {
                    assert forall|k2: u64| k2 != key implies #[trigger] lookup(final(self)@, k2)
                        == lookup(old(self)@, k2) by {
                        lemma_lookup_push(mid, key, value, k2);
                    }
                    lemma_lookup_push(mid, key, value, key);
                    let s2 = final(self)@;
                    assert forall|a: int, b: int|
                        0 <= a < s2.len() && 0 <= b < s2.len() && a != b implies (
                    #[trigger] s2[a]).0 != (#[trigger] s2[b]).0 by {
                        lemma_lookup_positive(mid, key);
                        if a < s2.len() - 1 && b < s2.len() - 1 {
                            assert(s2[a] == mid[a] && s2[b] == mid[b]);
                        } else if a == s2.len() - 1 {
                            assert(s2[b] == mid[b]);
                        } else {
                            assert(s2[a] == mid[a]);
                        }
                    }
                }
                Some(old_entry.1)
            },
        }
    }

    /// Removes the entry stored under `key`, returning its value.
    pub fn remove(&mut self, key: u64) -> (r: Option<V>)
        requires
            unique_keys(old(self)@),
        ensures
            unique_keys(final(self)@),
            r == lookup(old(self)@, key),
            lookup(final(self)@, key) is None,
            forall|k2: u64| k2 != key ==> #[trigger] lookup(final(self)@, k2) == lookup(
                old(self)@,
                k2,
            ),
    {
        proof {
            lemma_lookup_positive(self@, key);
        }
        match self.find(key) {
            None => {
                proof {
                    assert forall|k2: u64| k2 != key implies #[trigger] lookup(final(self)@, k2)
                        == lookup(old(self)@, k2) by {}
                }
                None
            },
            Some(i) => {
                proof {
                    lemma_lookup_at(self@, i as int);
                    assert forall|k2: u64| true implies unique_keys(old(self)@.remove(i as int)) && (
                    k2 != key ==> #[trigger] lookup(old(self)@.remove(i as int), k2) == lookup(
                        old(self)@,
                        k2,
                    )) && (k2 == key ==> lookup(old(self)@.remove(i as int), k2) is None) by {
                        lemma_lookup_remove(old(self)@, i as int, k2);
                    }
                }
                let e = self.entries.remove(i);
                Some(e.1)
            },
        }
    }

    /// Stores `value` under `key` only if the key is vacant; an occupied
    /// key refuses the store and hands `value` back.
    pub fn set(&mut self, key: u64, value: V) -> (r: Result<(), V>)
        requires
            unique_keys(old(self)@),
        ensures
            unique_keys(final(self)@),
            lookup(old(self)@, key) is Some ==> r == Err::<(), V>(value) && final(self)@ == old(
                self,
            )@,
            lookup(old(self)@, key) is None ==> r is Ok && final(self)@ == old(self)@.push(
                (key, value),
            ),
    {
        proof {
            lemma_lookup_positive(self@, key);
        }
        match self.find(key) {
            Some(_) => {
                proof {
                    lemma_lookup_positive(self@, key);
                }
                Err(value)
            },
            None => {
                self.entries.push((key, value));
                proof {
                    let s2 = final(self)@;
                    assert forall|a: int, b: int|
                        0 <= a < s2.len() && 0 <= b < s2.len() && a != b implies (
                    #[trigger] s2[a]).0 != (#[trigger] s2[b]).0 by {
                        if a < s2.len() - 1 && b < s2.len() - 1 {
                            assert(s2[a] == old(self)@[a] && s2[b] == old(self)@[b]);
                        } else if a == s2.len() - 1 {
                            assert(s2[b] == old(self)@[b]);
                        } else {
                            assert(s2[a] == old(self)@[a]);
                        }
                    }
                }
                Ok(())
            },
        }
    }

    /// The value stored under `key`, initializing it with the result of
    /// `f` first when the key is vacant.
    pub fn get_or_init<F: FnOnce() -> V>(&mut self, key: u64, f: F) -> (r: &V)
        requires
            unique_keys(old(self)@),
            lookup(old(self)@, key) is None ==> call_requires(f, ()),
        ensures
            unique_keys(final(self)@),
            lookup(old(self)@, key) matches Some(v) ==> final(self)@ == old(self)@ && *r == v,
            lookup(old(self)@, key) is None ==> call_ensures(f, (), *r) && final(self)@ == old(
                self,
            )@.push((key, *r)),
            lookup(final(self)@, key) == Some(*r),
    {
        proof {
            lemma_lookup_positive(self@, key);
        }
        match self.find(key) {
            Some(i) => {
                proof {
                    lemma_lookup_at(self@, i as int);
                }
                &self.entries[i].1
            },
            None => {
                let v = f();
                let i = self.entries.len();
                self.entries.push((key, v));
                proof {
                    let s2 = final(self)@;
                    assert forall|a: int, b: int|
                        0 <= a < s2.len() && 0 <= b < s2.len() && a != b implies (
                    #[trigger] s2[a]).0 != (#[trigger] s2[b]).0 by {
                        if a < s2.len() - 1 && b < s2.len() - 1 {
                            assert(s2[a] == old(self)@[a] && s2[b] == old(self)@[b]);
                        } else if a == s2.len() - 1 {
                            assert(s2[b] == old(self)@[b]);
                        } else {
                            assert(s2[a] == old(self)@[a]);
                        }
                    }
                    lemma_lookup_at(s2, i as int);
                }
                &self.entries[i].1
            },
        }
    }

    /// The value stored under `key`, initializing it with the result of
    /// `f` first when the key is vacant; a failed initializer stores
    /// nothing and its error is returned.
    pub fn get_or_try_init<E, F: FnOnce() -> Result<V, E>>(&mut self, key: u64, f: F) -> (r: Result<
        &V,
        E,
    >)
        requires
            unique_keys(old(self)@),
            lookup(old(self)@, key) is None ==> call_requires(f, ()),
        ensures
            unique_keys(final(self)@),
            lookup(old(self)@, key) matches Some(v) ==> r matches Ok(x) && *x == v && final(self)@
                == old(self)@,
            lookup(old(self)@, key) is None ==> match r {
                Ok(x) => call_ensures(f, (), Ok(*x)) && final(self)@ == old(self)@.push((key, *x)),
                Err(e) => call_ensures(f, (), Err(e)) && final(self)@ == old(self)@,
            },
    {
        proof {
            lemma_lookup_positive(self@, key);
        }
        match self.find(key) {
            Some(i) => {
                proof {
                    lemma_lookup_at(self@, i as int);
                }
                Ok(&self.entries[i].1)
            },
            None => {
                match f() {
                    Err(e) => Err(e),
                    Ok(v) => {
                        let i = self.entries.len();
                        self.entries.push((key, v));
                        proof {
                            let s2 = final(self)@;
                            assert forall|a: int, b: int|
                                0 <= a < s2.len() && 0 <= b < s2.len() && a != b implies (
                            #[trigger] s2[a]).0 != (#[trigger] s2[b]).0 by {
                                if a < s2.len() - 1 && b < s2.len() - 1 {
                                    assert(s2[a] == old(self)@[a] && s2[b] == old(self)@[b]);
                                } else if a == s2.len() - 1 {
                                    assert(s2[b] == old(self)@[b]);
                                } else {
                                    assert(s2[a] == old(self)@[a]);
                                }
                            }
                        }
                        Ok(&self.entries[i].1)
                    },
                }
            },
        }
    }

    /// Removes every entry.
    pub fn clear(&mut self)
        ensures
            final(self)@ == Seq::<(u64, V)>::empty(),
            unique_keys(final(self)@),
    {
        self.entries.clear();
        proof {
            assert(final(self)@ =~= Seq::<(u64, V)>::empty());
        }
    }

    /// Removes every entry, handing them out one by one.
    pub fn drain(&mut self) -> (r: Drain<V>)
        ensures
            final(self)@ == Seq::<(u64, V)>::empty(),
            unique_keys(final(self)@),
            r@ == old(self)@,
    {
        let mut taken: Vec<(u64, V)> = Vec::new();
        core::mem::swap(&mut taken, &mut self.entries);
        proof {
            assert(final(self)@ =~= Seq::<(u64, V)>::empty());
        }
        Drain { items: taken }
    }
}

impl<V> Default for HashMapOnce<V> {
    /// An empty map.
    fn default() -> (r: Self)
        ensures
            r@ == Seq::<(u64, V)>::empty(),
            unique_keys(r@),
    {
        HashMapOnce::new()
    }
}

} // verus!
