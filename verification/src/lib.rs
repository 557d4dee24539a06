//! Vertical recoil compensation: a shared control state written by an input
//! listener and a control surface, read by a compensation loop that emits
//! timed relative pointer displacements, plus a persisted list of named
//! strength profiles.
//!
//! This crate holds the decision logic of the system, fully verified: how
//! input edges update the control state, when a compensation cycle fires and
//! what displacement it emits, how profile selection and reset drive the
//! shared strength, and the text format in which profiles persist. The
//! platform edges (the global event hook, the pointer actuator, file access,
//! rendering) live outside and exchange plain values with this crate.

pub mod codec;
pub mod engine;
pub mod gui;
pub mod listener;
pub mod operators;
pub mod state;
