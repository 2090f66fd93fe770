//! Tick-indexed traces of a game-simulation message stream: the roster of
//! players, per-message player state snapshots, damage events and changes of
//! the world bounds.
pub mod records;

pub mod decimal;
pub mod message;
pub mod pov;
pub mod roster;
pub mod tracer;
