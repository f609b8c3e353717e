//! Verified gameplay logic for a small 2D driving game.
//!
//! The game itself runs on an entity-component-system engine together with a
//! 2D physics plugin; rendering, asset loading and collision detection belong
//! to that host. This crate holds the game's own decisions as plain,
//! verified functions: the tile map and its pavement layout rules, the
//! dialogue sequencer, the mission state machine and its trigger handling,
//! the car control decision table, and the parallax layer bookkeeping.

pub mod buildings;
pub mod car;
pub mod dialogues;
pub mod mapfile;
pub mod missions;
pub mod parallax;
pub mod road;
pub mod tilemap;
pub mod trigger;
