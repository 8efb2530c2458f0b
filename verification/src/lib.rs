//! Core of a grid-based snake game: board geometry, the direction input
//! queue, the tick scheduler, the occupancy grid used for collision
//! detection, and the per-tick simulation step with its state machine.

pub mod grid;
pub mod dirs;
pub mod sched;
pub mod occ;
pub mod game;
pub mod laws;
pub mod tag;
