//! Simulation core of a top-down survival shooter.
//!
//! A player fends off a horde of enemies with an automatic gun until it dies.
//! This crate is the rule book of that game: the match lifecycle, the spawn
//! director, pursuit, aim and fire cadence, the lifetime of bullets, and
//! damage and death. Every rule has a contract, and Verus proves that the
//! code keeps it.
//!
//! The whole simulation runs on integers: positions and vectors are
//! fixed-point values ([`constants::UNIT`] steps per world unit) and time is a
//! count of nanoseconds, so that every rule can be stated exactly and two
//! runs on the same inputs and the same random draws agree bit for bit.
//! Rendering, input polling and collision detection live outside; they hand
//! the core plain values each tick and carry out what it reports back.
//!
//! Whatever is left to chance comes in two forms: a function that draws for
//! itself, and one of the same name ending in `_with` that takes the draws
//! as an argument and is exact.

pub mod constants;
pub mod enemy;
pub mod gun;
pub mod math;
pub mod player;
pub mod simulation;
pub mod timer;
pub mod world;
