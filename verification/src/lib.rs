//! The ball physics of a two-player Pong game: where balls are spawned, how their
//! speed is held constant, and how a paddle deflects them.
//!
//! All lengths, speeds and directions are fixed-point integers that count
//! thousandths of a unit (see [`units`]), so every rule of the game is exact
//! integer arithmetic. The game's entities live in a [`world::World`]; the
//! physics engine that moves them and reports their collisions stays outside
//! and hands its events to [`schedule::tick`] once per tick.

pub mod units;
pub mod paddles;
pub mod world;
pub mod ball;
pub mod collision;
pub mod schedule;
