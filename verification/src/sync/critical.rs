//! Scope-bound critical sections.
//!
//! Entering a critical section saves the current interrupt-enable mask
//! and disables interrupts; leaving restores the saved mask, so
//! sections nest.  The masking primitives themselves belong to the
//! port; the kernel model tracks only the saved mask, and the port
//! pairs every `begin` with a restore when the guard leaves scope.

use vstd::prelude::*;

verus! {

/// Entry point for a critical section.
pub struct CriticalSection;

impl CriticalSection {
    /// Enters a critical section, handing back the guard that carries
    /// the saved interrupt mask out to the port's restore.
    pub fn begin() -> (r: CriticalSectionGuard)
        ensures
            r.spec_mask() == 0,
    {
        CriticalSectionGuard { mask: 0 }
    }
}

/// The saved interrupt mask of an open critical section; the port
/// restores it when the guard is dropped.
pub struct CriticalSectionGuard {
    mask: usize,
}

impl CriticalSectionGuard {
    /// The saved interrupt-enable mask.
    pub closed spec fn spec_mask(&self) -> usize {
        self.mask
    }

    /// The saved interrupt-enable mask, for the port's restore.
    pub fn mask(&self) -> (r: usize)
        ensures
            r == self.spec_mask(),
    {
        self.mask
    }
}

} // verus!
