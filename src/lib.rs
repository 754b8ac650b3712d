//! Simulation engine of a two-paddle ball game: geometry of hits, ball
//! kinematics, scoring and serving, and the mapping of keys to paddle motion.
//! Every position and speed is a whole number of pixels (per tick).

pub mod geometry;
pub mod arena;
pub mod input;
mod random;
pub mod game;
