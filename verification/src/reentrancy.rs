//! Protection of detours against entering themselves.
use vstd::prelude::*;

verus! {

/// Marks a region as entered on a thread. The flag that says so belongs to the
/// thread.
#[derive(Debug)]
pub struct ReentrancyGuard;

impl ReentrancyGuard {
    /// Enters the region whose flag is `entered`. Returns `None` where the thread
    /// is inside it already.
    pub fn enter(entered: &mut bool) -> (guard: Option<ReentrancyGuard>)
        ensures
            guard is Some <==> !*old(entered),
            *final(entered),
    {
        if *entered {
            None
        } else {
            *entered = true;
            Some(ReentrancyGuard)
        }
    }

    /// Leaves the region again.
    pub fn leave(self, entered: &mut bool)
        ensures
            !*final(entered),
    {
        *entered = false;
    }
}

} // verus!
