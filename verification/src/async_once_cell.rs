use vstd::prelude::*;

verus! {

/// A cell whose value is set at most once.
///
/// The cell guarantees: once a value is stored, it is never replaced, so
/// every observer sees the same value; and a failed initialization does
/// not consume the single opportunity — the next attempt may still store
/// a value.  The asynchronous slow path (probing, then serializing
/// initializers behind a mutex, then storing the first successful
/// result) drives the cell through `get` and `init_once`.
pub struct AsyncOnceCell<T> {
    cell: Option<T>,
}

impl<T> View for AsyncOnceCell<T> {
    type V = Option<T>;

    closed spec fn view(&self) -> Option<T> {
        self.cell
    }
}

impl<T> AsyncOnceCell<T> {
    /// An empty cell.
    pub fn new() -> (r: AsyncOnceCell<T>)
        ensures
            r@ is None,
    {
        AsyncOnceCell { cell: None }
    }

    /// A cell already holding `val`.
    pub fn with_val(val: T) -> (r: AsyncOnceCell<T>)
        ensures
            r@ == Some(val),
    {
        AsyncOnceCell { cell: Some(val) }
    }

    /// The stored value, if one was set.
    pub fn get(&self) -> (r: Option<&T>)
        ensures
            r is Some <==> self@ is Some,
            r matches Some(v) ==> self@ == Some(*v),
    {
        self.cell.as_ref()
    }

    /// A mutable reference to the stored value, if one was set.
    pub fn get_mut(&mut self) -> (r: Option<&mut T>)
        ensures
            r is Some <==> old(self)@ is Some,
            old(self)@ is None ==> final(self)@ is None,
            r matches Some(v) ==> old(self)@ == Some(*v) && final(self)@ == Some(*final(v)),
    {
        self.cell.as_mut()
    }

    /// Stores `value` if the cell is still empty; otherwise the cell
    /// keeps its first value and `value` is dropped.  Returns the stored
    /// value: at most one store ever takes effect, and every caller sees
    /// that one.
    pub fn init_once(&mut self, value: T) -> (r: &T)
        ensures
            old(self)@ is None ==> final(self)@ == Some(value),
            old(self)@ is Some ==> final(self)@ == old(self)@,
            final(self)@ == Some(*r),
    {
        if self.cell.is_none() {
            self.cell = Some(value);
        }
        self.cell.as_ref().unwrap()
    }

    /// The stored value, or the result of `f`, stored first: `f` runs
    /// only when the cell is empty, so the initializer runs at most once
    /// per stored value.
    pub fn get_or_init_sync<F: FnOnce() -> T>(&mut self, f: F) -> (r: &T)
        requires
            old(self)@ is None ==> call_requires(f, ()),
        ensures
            old(self)@ is Some ==> final(self)@ == old(self)@,
            old(self)@ is None ==> call_ensures(f, (), *r),
            final(self)@ == Some(*r),
    {
        if self.cell.is_none() {
            let v = f();
            self.cell = Some(v);
        }
        self.cell.as_ref().unwrap()
    }

    /// The stored value, or the result of `f` if it succeeds, stored
    /// first.  A failed initializer stores nothing: the opportunity
    /// remains for the next attempt, and the failure is visible only as
    /// the returned error.
    pub fn get_or_try_init_sync<E, F: FnOnce() -> Result<T, E>>(&mut self, f: F) -> (r: Result<
        &T,
        E,
    >)
        requires
            old(self)@ is None ==> call_requires(f, ()),
        ensures
            old(self)@ is Some ==> r is Ok && final(self)@ == old(self)@,
            r matches Ok(v) ==> final(self)@ == Some(*v),
            old(self)@ is None ==> match r {
                Ok(v) => call_ensures(f, (), Ok(*v)),
                Err(e) => call_ensures(f, (), Err(e)) && final(self)@ is None,
            },
    {
        if self.cell.is_none() {
            match f() {
                Ok(v) => {
                    self.cell = Some(v);
                },
                Err(e) => {
                    return Err(e);
                },
            }
        }
        Ok(self.cell.as_ref().unwrap())
    }

    /// Consumes the cell, returning the stored value if any.
    pub fn into_inner(self) -> (r: Option<T>)
        ensures
            r == self@,
    {
        self.cell
    }

    /// Replaces the cell's content wholesale, returning the old value.
    /// This requires exclusive access and is not bound by the set-once
    /// discipline, which concerns shared observers.
    pub fn swap(&mut self, value: Option<T>) -> (r: Option<T>)
        ensures
            r == old(self)@,
            final(self)@ == value,
    {
        let out = self.cell.take();
        self.cell = value;
        out
    }

    /// Takes the stored value out, leaving the cell empty.
    pub fn take(&mut self) -> (r: Option<T>)
        ensures
            r == old(self)@,
            final(self)@ is None,
    {
        self.cell.take()
    }
}

impl<T> Default for AsyncOnceCell<T> {
    /// An empty cell.
    fn default() -> (r: Self)
        ensures
            r@ is None,
    {
        AsyncOnceCell { cell: None }
    }
}

} // verus!
