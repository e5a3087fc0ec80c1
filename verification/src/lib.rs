//! Game rules of a small lunar-lander arcade game: steering, the turn
//! cooldown, the thrust decision and the terrain's height samples.
//!
//! Everything here works on plain integers and booleans. Window, keyboard,
//! clock and the continuous motion of the craft belong to the program that
//! drives these rules frame by frame.

pub mod compass;
pub mod game;
pub mod keys;
pub mod lander;
pub mod random;
pub mod terrain;
