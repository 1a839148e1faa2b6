//! Core simulation logic for a tower-defense game: the waypoint path model
//! that enemies follow, the wave/economy state machine, the enemy lifecycle,
//! tower targeting and projectile dispatch, and the build/upgrade market.
//!
//! All fractional quantities (world coordinates, money, health, timer
//! durations) are held as fixed-point integers: one game-world unit
//! corresponds to 1000 "milli" steps, and timers count milliseconds.

pub mod arena;
pub mod enemy;
pub mod geometry;
pub mod market;
pub mod parse;
pub mod path;
pub mod projectile;
pub mod sim;
pub mod state;
pub mod timer;
pub mod tower;
pub mod world;

use vstd::prelude::*;

verus! {

/// The recoverable and fatal error conditions of the simulation core.
#[derive(Clone, Copy, Debug, PartialEq, Eq, Structural)]
pub enum GameError {
    /// An operation needed a piece of world state (a non-empty path) that
    /// does not exist; map-authoring bug, fatal.
    InvalidState,
    /// A scene-node name lacks the comma that separates its prefix from the
    /// tag.
    MissingComma,
    /// A tower-base name lacks the dot that separates the tag from the rest.
    MissingDot,
    /// A tower-base tag is not one of the known tower grades.
    UnknownTowerTag,
    /// A route-node name has fewer comma-separated fields than expected.
    MissingField,
    /// A numeric field does not parse as an integer.
    BadNumber,
}

} // verus!
