//! Deterministic simulation core for a real-time strategy game.
//!
//! The simulation advances in fixed ticks. Each tick drains the pending
//! player commands in a deterministic order, applies them to the world,
//! runs the movement, gathering, production and combat passes, and emits
//! an immutable snapshot of the observable state. Given the same random
//! seed and the same command stream, two runs produce bit-identical
//! snapshots; a 64-bit digest over each snapshot lets two runs detect
//! divergence.
//!
//! All positions and rates are fixed-point integers (milli-tiles), so no
//! floating-point representation can drift between platforms.

pub mod buffer;
pub mod commands;
pub mod components;
pub mod data;
pub mod empires;
pub mod hash;
pub mod ids;
pub mod resources;
pub mod rng;
pub mod save;
pub mod snapshot;
pub mod systems;
pub mod tick;
pub mod world;
