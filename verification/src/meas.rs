//! Runtime measurement: per-CPU busy time and per-task runtime statistics.
//!
//! [`RuntimeMeas`] is the accumulator with a run-time switch; the variant in
//! [`disabled`] has the same operations and does nothing.

pub mod disabled;
pub mod enabled;
pub mod laws;
pub mod model;
pub mod table;

pub use enabled::RuntimeMeas;
