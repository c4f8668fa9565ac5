//! Core of a trigger-driven automation engine: a conditional action tree,
//! its breadth-first interpreter, the timer registry used by time gates, and
//! the two trigger strategies that decide when the interpreter runs.
//!
//! Everything here is a pure state machine or computation. Injecting input,
//! reading another process's memory, sampling the screen, sleeping and
//! spawning threads are done by the caller, which hands the results back.

pub mod color;
pub mod control;
pub mod interpret;
pub mod keystroke;
pub mod memory;
pub mod model;
pub mod session;
pub mod text;
pub mod timers;
pub mod tree;
