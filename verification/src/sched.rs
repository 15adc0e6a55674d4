//! The scheduler: the declared tasks, the timing wheel and the trigger slots.

pub mod schema;
pub mod trigger;
pub mod wheel;
pub mod laws;
