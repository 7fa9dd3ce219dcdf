//! The coordinating state of the engine.

pub mod state;
