//! A spin lock: one flag, taken with an atomic swap.
use vstd::prelude::*;
use core::sync::atomic::AtomicBool;
use core::sync::atomic::Ordering;

verus! {

/// A lock that is taken by setting a flag.  Nothing releases it but a
/// call of `unlock`: whoever takes it has to give it back.
///
/// The flag is shared between harts and changes behind a shared reference,
/// so no contract here speaks of what it holds.
pub struct SpinLock {
    locked: AtomicBool,
}

/// Whether an attempt took the lock, given what the flag held just before
/// the attempt set it: the lock is taken exactly if it was free.
pub open spec fn spec_acquired(previous: bool) -> bool {
    !previous
}

/// Tells from what the flag held before an attempt whether the attempt took
/// the lock.
#[verifier::when_used_as_spec(spec_acquired)]
pub fn acquired(previous: bool) -> (taken: bool)
    ensures
        taken == spec_acquired(previous),
{
    !previous
}

impl SpinLock {
    /// A lock that nobody holds.
    pub fn new() -> SpinLock {
        SpinLock { locked: AtomicBool::new(false) }
    }

    /// Tries once to take the lock, and says whether that worked.  To wait
    /// for the lock, call again until it does.
    #[must_use]
    pub fn lock(&self) -> bool {
        acquired(self.locked.swap(true, Ordering::Acquire))
    }

    /// Gives the lock back.
    pub fn unlock(&self) {
        self.locked.store(false, Ordering::Release);
    }
}

} // verus!
