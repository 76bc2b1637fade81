//! Trace identifiers: their layout and the generator that makes them.

pub mod clock;
pub mod generator;
pub mod laws;
pub mod trace_id;
