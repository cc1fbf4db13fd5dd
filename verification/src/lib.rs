//! A verified CHIP-8 interpreter core.
//!
//! The machine state (memory, registers, framebuffer, call stack, timers,
//! keys) lives in [`State`]; every instruction's effect is stated against
//! the mathematical model in [`semantics`] and proved, and the properties
//! that relate instructions to each other are proved in [`laws`]. The host
//! is expected to drive [`State::emulate_cycle`] repeatedly, push key
//! changes in between, and read the framebuffer when a redraw is requested.

pub mod laws;
mod machine;
mod rng;
pub mod semantics;

pub use machine::State;
pub use semantics::Fault;
pub use semantics::LoadError;
