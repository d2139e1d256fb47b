//! Simulation core of a side-scrolling "flappy" game: per-frame physics,
//! obstacle lifecycle, collision geometry and scoring.
//!
//! All positions, sizes and speeds are measured in tenths of a world unit
//! ("deci-units"), so that every per-frame computation is exact integer
//! arithmetic: gravity is 1 deci-unit per frame squared, a flap sets the
//! vertical velocity to -20 deci-units per frame, the play field is 6000
//! deci-units tall, and so on.

pub mod game;
pub mod laws;
pub mod obstacle;
