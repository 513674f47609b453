use vstd::prelude::*;

verus! {

/// Recommended duration, in milliseconds, after which holding a lock for a
/// shared read is reported as too long.
pub const READ_DUR_MS: u64 = 30000;

/// Recommended duration, in milliseconds, for holding the queue ticket.
pub const QUEUE_DUR_MS: u64 = 2000;

/// Recommended duration, in milliseconds, for holding the exclusive write.
pub const WRITE_DUR_MS: u64 = 1000;

/// The kind of lock request a task makes.
#[derive(Clone, Copy, Debug, PartialEq, Eq, Structural)]
pub enum Ops {
    /// A shared read.
    Read,
    /// The exclusive write.
    Write,
    /// The writer-queue ticket: exclusive among queuers, shared with
    /// readers.
    Queue,
}

impl Ops {
    /// The label under which this request kind is reported.
    pub fn as_str(self) -> (r: &'static str)
        ensures
            r@ == self.spec_str(),
    {
        match self {
            Self::Queue => "queue",
            Self::Write => "write",
            Self::Read => "read",
        }
    }

    /// What `as_str` returns for each kind.
    pub open spec fn spec_str(self) -> Seq<char> {
        match self {
            Self::Queue => "queue"@,
            Self::Write => "write"@,
            Self::Read => "read"@,
        }
    }

    /// The recommended hold duration for this request kind, in
    /// milliseconds; holds longer than this are reported.
    pub fn recommend_dur(self) -> (r: u64)
        ensures
            r == self.spec_recommend_dur(),
    {
        match self {
            Ops::Queue => QUEUE_DUR_MS,
            Ops::Read => READ_DUR_MS,
            Ops::Write => WRITE_DUR_MS,
        }
    }

    /// What `recommend_dur` returns for each kind.
    pub open spec fn spec_recommend_dur(self) -> u64 {
        match self {
            Ops::Queue => QUEUE_DUR_MS,
            Ops::Read => READ_DUR_MS,
            Ops::Write => WRITE_DUR_MS,
        }
    }

    /// Whether a task already holding this lock in mode `self` may also
    /// acquire it in mode `requested`.
    ///
    /// A holder in mode `self` occupies resources: a read share for
    /// `Read`; the queue stage plus a read share for `Queue`; the queue
    /// stage plus the exclusive write for `Write`.  A second request from
    /// the same task is compatible exactly when the resources it needs are
    /// still available beside those: further read shares coexist with read
    /// shares, and the queue stage coexists with plain read shares, but
    /// the exclusive write and a second queue ticket never coexist with
    /// anything.
    pub open spec fn spec_compatible(self, requested: Ops) -> bool {
        match (self, requested) {
            (Ops::Read, Ops::Read) => true,
            (Ops::Read, Ops::Queue) => true,
            (Ops::Queue, Ops::Read) => true,
            _ => false,
        }
    }

    /// Executable form of `spec_compatible`.
    pub fn compatible(self, requested: Ops) -> (r: bool)
        ensures
            r == self.spec_compatible(requested),
    {
        match (self, requested) {
            (Ops::Read, Ops::Read) => true,
            (Ops::Read, Ops::Queue) => true,
            (Ops::Queue, Ops::Read) => true,
            _ => false,
        }
    }
}

} // verus!
