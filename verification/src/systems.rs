//! Simulation systems.
//!
//! All systems run once per fixed tick, strictly in pipeline order:
//! command application, then movement, gathering, production, combat,
//! and finally snapshot generation. No stage may be skipped or
//! reordered without breaking the determinism guarantees.

pub mod combat;
pub mod command_processor;
pub mod gather;
pub mod movement;
pub mod pipeline;
pub mod production;
pub mod snapshot_gen;
