//! A cooperative periodic time-slice scheduler for small multicore systems.
//!
//! The crate holds the scheduler's decisions as plain state machines: the
//! timing wheel that turns base ticks into wake-ups, the single-slot trigger
//! mailboxes, and the runtime-measurement accumulator. Clocks, threads and
//! timers are supplied by the caller, which hands in the values it read and
//! carries out the actions it is handed back.

pub mod text;
pub mod meas;
pub mod sched;
