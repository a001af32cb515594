//! Core logic of a small auto-battler: combatant stats with regeneration,
//! a turn-accumulator battle scheduler, outcome resolution (deaths, rewards,
//! win/lose), a stackable-item inventory, and a procedural opponent generator.
//!
//! All quantities are integers. Hit points, damage and mana are stored in
//! micro-units (one displayed point is 1_000_000 stored units); regeneration
//! rates are stored in micro-units per millisecond; attack speed is stored in
//! micro-turns per millisecond (one banked turn is 1_000_000 micro-turns), so
//! a combatant with speed `s` attacks exactly `floor(T * s)` times over any
//! partition of `T` seconds into ticks.

pub mod battle;
pub mod progression;
pub mod rng;
pub mod statistics;
pub mod stats;
pub mod summoning;
pub mod utils;
