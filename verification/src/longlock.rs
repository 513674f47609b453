use vstd::prelude::*;

verus! {

/// How long, in milliseconds, a lock may be kept before the hold is
/// reported as too long.
pub const LONG_LOCK_MS: u64 = 30000;

/// Declares `std::time::Instant`: an opaque reading of the monotonic
/// clock, usable in fields and signatures.
#[verifier::external_type_specification]
#[verifier::external_body]
pub struct ExInstant(std::time::Instant);

/// Relies on `std::time::Instant::now`: the monotonic clock's current
/// reading.  The value depends on the clock, so nothing is promised of
/// it.
#[verifier::external_body]
fn now_instant() -> std::time::Instant {
    std::time::Instant::now()
}

/// Relies on `std::time::Instant::elapsed` and
/// `core::time::Duration::as_millis`: how many milliseconds passed
/// since `start`.  The value depends on the clock, so nothing is
/// promised of it.
#[verifier::external_body]
fn instant_elapsed_millis(start: &std::time::Instant) -> u128 {
    start.elapsed().as_millis()
}

/// A stopwatch for one long-lived hold: it remembers when the hold
/// began and under which operation label, so that holds kept past
/// `LONG_LOCK_MS` can be reported when the guard ends.
pub struct LongLock {
    started: std::time::Instant,
    op: &'static str,
}

impl LongLock {
    /// Starts the stopwatch for a hold under the label `op`.
    pub fn new(op: &'static str) -> (r: LongLock)
        ensures
            r.op_label() == op@,
    {
        LongLock { started: now_instant(), op }
    }

    /// The operation label the stopwatch was started under.
    pub closed spec fn op_label(&self) -> Seq<char> {
        self.op@
    }

    /// The label, for reporting.
    pub fn op(&self) -> (r: &'static str)
        ensures
            r@ == self.op_label(),
    {
        self.op
    }

    /// How many milliseconds the hold has lasted, saturating at the
    /// largest representable count.  The value depends on the clock.
    pub fn elapsed(&self) -> u64 {
        let ms = instant_elapsed_millis(&self.started);
        if ms > (u64::MAX as u128) {
            u64::MAX
        } else {
            ms as u64
        }
    }

    /// Whether a hold of `elapsed_ms` milliseconds counts as kept too
    /// long.
    pub fn exceeded(elapsed_ms: u64) -> (r: bool)
        ensures
            r == (elapsed_ms > LONG_LOCK_MS),
    {
        elapsed_ms > LONG_LOCK_MS
    }
}

} // verus!
