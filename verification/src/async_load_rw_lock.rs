use vstd::prelude::*;

verus! {

/// A lazily loaded slot behind a reader/writer discipline.
///
/// The stored value is optional; `read_or_init`-style access first
/// probes under a shared read, and only on absence upgrades to an
/// exclusive write, initializes if still absent, and downgrades back to
/// a read — so no reader ever observes the slot empty after a
/// successful initialization.  The probing and the suspensions belong
/// to the asynchronous driver; this core carries the slot itself and
/// the at-most-once initialization step.
pub struct AsyncLoadRwLock<T> {
    value: Option<T>,
}

impl<T> View for AsyncLoadRwLock<T> {
    type V = Option<T>;

    closed spec fn view(&self) -> Option<T> {
        self.value
    }
}

impl<T> AsyncLoadRwLock<T> {
    /// An empty slot.
    pub fn new() -> (r: AsyncLoadRwLock<T>)
        ensures
            r@ is None,
    {
        AsyncLoadRwLock { value: None }
    }

    /// A slot holding `value` if it is `Some`.
    pub fn with_opt(value: Option<T>) -> (r: AsyncLoadRwLock<T>)
        ensures
            r@ == value,
    {
        AsyncLoadRwLock { value }
    }

    /// A slot already holding `value`.
    pub fn with_val(value: T) -> (r: AsyncLoadRwLock<T>)
        ensures
            r@ == Some(value),
    {
        AsyncLoadRwLock { value: Some(value) }
    }

    /// A mutable reference to the slot; the mutable borrow makes locking
    /// unnecessary.
    pub fn get_mut(&mut self) -> (r: &mut Option<T>)
        ensures
            *r == old(self)@,
            final(self)@ == *final(r),
    {
        &mut self.value
    }

    /// Whether the slot holds a value.
    pub fn is_loaded(&self) -> (r: bool)
        ensures
            r == (self@ is Some),
    {
        self.value.is_some()
    }

    /// Stores `value` if the slot is still empty; an occupied slot keeps
    /// its value and drops `value`.  This is the write-side
    /// initialization step: at most one store takes effect.
    pub fn store_if_absent(&mut self, value: T)
        ensures
            old(self)@ is None ==> final(self)@ == Some(value),
            old(self)@ is Some ==> final(self)@ == old(self)@,
            final(self)@ is Some,
    {
        if self.value.is_none() {
            self.value = Some(value);
        }
    }

    /// A shared view of the stored value.
    pub fn get(&self) -> (r: Option<&T>)
        ensures
            r is Some <==> self@ is Some,
            r matches Some(v) ==> self@ == Some(*v),
    {
        self.value.as_ref()
    }

    /// A mutable reference to the stored value, initializing it with the
    /// result of `f` first when the slot is empty.
    pub fn get_mut_or_init<F: FnOnce() -> T>(&mut self, f: F) -> (r: &mut T)
        requires
            old(self)@ is None ==> call_requires(f, ()),
        ensures
            old(self)@ matches Some(v) ==> *r == v,
            old(self)@ is None ==> call_ensures(f, (), *r),
            final(self)@ == Some(*final(r)),
    {
        if self.value.is_none() {
            let v = f();
            self.value = Some(v);
        }
        self.value.as_mut().unwrap()
    }

    /// A mutable reference to the stored value, initializing it with the
    /// result of `f` first when the slot is empty; a failed initializer
    /// stores nothing and its error is returned.
    pub fn get_mut_or_try_init<E, F: FnOnce() -> Result<T, E>>(&mut self, f: F) -> (r: Result<
        &mut T,
        E,
    >)
        requires
            old(self)@ is None ==> call_requires(f, ()),
        ensures
            old(self)@ is Some ==> r is Ok,
            old(self)@ matches Some(v) ==> (r matches Ok(x) ==> *x == v),
            r matches Ok(x) ==> final(self)@ == Some(*final(x)),
            old(self)@ is None ==> match r {
                Ok(x) => call_ensures(f, (), Ok(*x)),
                Err(e) => call_ensures(f, (), Err(e)) && final(self)@ is None,
            },
    {
        if self.value.is_none() {
            match f() {
                Ok(v) => {
                    self.value = Some(v);
                },
                Err(e) => {
                    return Err(e);
                },
            }
        }
        Ok(self.value.as_mut().unwrap())
    }

    /// Replaces the slot's content wholesale, returning the old value.
    pub fn swap(&mut self, value: Option<T>) -> (r: Option<T>)
        ensures
            r == old(self)@,
            final(self)@ == value,
    {
        let out = self.value.take();
        self.value = value;
        out
    }
}

impl<T> Default for AsyncLoadRwLock<T> {
    /// An empty slot.
    fn default() -> (r: Self)
        ensures
            r@ is None,
    {
        AsyncLoadRwLock { value: None }
    }
}

} // verus!
