//! The measurement interface with nothing behind it.
//!
//! For builds that want no measurement at all: the same operations as the
//! accumulator, none of which keeps or reports anything.

use vstd::prelude::*;

verus! {

/// An accumulator that measures nothing.
pub struct RuntimeMeas {}

impl RuntimeMeas {
    /// A new accumulator. The number of CPUs is not used.
    pub fn new(cores: usize) -> (r: RuntimeMeas) {
        RuntimeMeas {  }
    }

    /// Starts no measurement: the token is always -1.
    pub fn meas_begin(&self, now: u32) -> (r: i64)
        ensures
            r == -1,
    {
        -1
    }

    /// Ends no measurement.
    pub fn meas_end(&mut self, task_name: &str, core: usize, begin: i64, now: u32)
        ensures
            *final(self) == *old(self),
    {
    }

    /// Reports on no CPU.
    pub fn print_cpus(&mut self, now: u32) -> (lines: Vec<String>)
        ensures
            *final(self) == *old(self),
            lines@.len() == 0,
    {
        Vec::new()
    }

    /// Reports on no task.
    pub fn print_task(&mut self, task_name: &str, time_base: usize, core: usize) -> (line: Option<
        String,
    >)
        ensures
            *final(self) == *old(self),
            line is None,
    {
        None
    }

    /// Measurements are never taken.
    pub fn is_enabled(&self) -> (r: bool)
        ensures
            !r,
    {
        false
    }

    /// The switch has no effect.
    pub fn enable(&mut self, en: bool)
        ensures
            *final(self) == *old(self),
    {
    }
}

} // verus!
