//! The redraw flag of the camera: set by every change, consumed by the one
//! check that follows it.

use vstd::prelude::*;

verus! {

/// Remembers that something changed since the last check.
#[derive(Debug, Clone, Copy)]
pub struct ChangeFlag {
    has_changed: bool,
}

impl ChangeFlag {
    /// Whether a change is waiting to be seen.
    pub closed spec fn pending(&self) -> bool {
        self.has_changed
    }

    /// A flag that starts set, so that the first check asks for a first frame.
    pub fn new() -> (flag: ChangeFlag)
        ensures
            flag.pending(),
    {
        ChangeFlag { has_changed: true }
    }

    /// Records a change.
    pub fn mark(&mut self)
        ensures
            final(self).pending(),
    {
        self.has_changed = true;
    }

    /// Reports whether anything changed since the last check, and clears
    /// the flag: a change is reported once.
    pub fn is_changed(&mut self) -> (changed: bool)
        ensures
            changed == old(self).pending(),
            !final(self).pending(),
    {
        if self.has_changed {
            self.has_changed = false;
            return true;
        }
        false
    }
}

} // verus!
