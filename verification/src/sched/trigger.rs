//! The single-slot mailbox that wakes a worker.

use vstd::prelude::*;

verus! {

/// A mailbox with room for one wake-up. Raising it while it is raised
/// changes nothing: wake-ups that the worker has not taken yet are merged
/// into one.
///
/// The slot is the flag only. Whoever shares it between the timer and the
/// worker guards it with one lock and pairs it with one condition variable.
#[derive(Debug)]
pub struct TriggerSlot {
    flag: bool,
}

impl View for TriggerSlot {
    type V = bool;

    /// Whether a wake-up is pending.
    closed spec fn view(&self) -> bool {
        self.flag
    }
}

impl TriggerSlot {
    /// A slot with no wake-up pending.
    pub fn new() -> (r: TriggerSlot)
        ensures
            !r@,
    {
        TriggerSlot { flag: false }
    }

    /// Whether a wake-up is pending.
    pub fn is_pending(&self) -> (r: bool)
        ensures
            r == self@,
    {
        self.flag
    }

    /// Leaves one wake-up pending, whether or not one was pending before.
    pub fn raise(&mut self)
        ensures
            final(self)@,
    {
        self.flag = true;
    }

    /// Takes the pending wake-up, if there is one: the test that a waiting
    /// worker makes each time it holds the lock. Returns whether there was
    /// one; none is pending afterwards.
    pub fn take(&mut self) -> (fired: bool)
        ensures
            fired == old(self)@,
            !final(self)@,
    {
        let fired = self.flag;
        self.flag = false;
        fired
    }
}

} // verus!
