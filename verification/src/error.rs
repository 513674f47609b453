use vstd::prelude::*;

verus! {

/// The reason a guarded lock operation was refused.
///
/// Errors are returned, never thrown; two errors are equal exactly when
/// they are the same variant.
#[derive(Clone, Copy, Debug, PartialEq, Eq, Structural)]
pub enum Error {
    /// The detector found a wait cycle, or the task is already waiting on
    /// another lock.
    DeadlockDetected,
    /// The same task requested a lock it already holds in an incompatible
    /// mode.
    RecursiveLock,
    /// A guarded operation was invoked outside a deadlock-check scope.
    NotDeadlockCheckFuture,
    /// A synchronous acquisition from within an asynchronous context
    /// exceeded its bounded wait.
    SyncLockTimeout,
}

impl Error {
    /// Maps any scope-lookup failure to `NotDeadlockCheckFuture`.
    pub fn not_deadlock_check_future<E>(_err: E) -> (r: Self)
        ensures
            r == Error::NotDeadlockCheckFuture,
    {
        Self::NotDeadlockCheckFuture
    }

    /// A short human-readable description of the error.
    pub fn describe(&self) -> (r: &'static str)
        ensures
            r@ == self.spec_describe(),
    {
        match self {
            Self::DeadlockDetected => "Deadlock detected.",
            Self::NotDeadlockCheckFuture => "Must run inside a with_deadlock_check future.",
            Self::RecursiveLock => "Recursive lock.",
            Self::SyncLockTimeout => "Synchronous lock for too long",
        }
    }

    /// What `describe` returns for each variant.
    pub open spec fn spec_describe(self) -> Seq<char> {
        match self {
            Self::DeadlockDetected => "Deadlock detected."@,
            Self::NotDeadlockCheckFuture => "Must run inside a with_deadlock_check future."@,
            Self::RecursiveLock => "Recursive lock."@,
            Self::SyncLockTimeout => "Synchronous lock for too long"@,
        }
    }
}

} // verus!
