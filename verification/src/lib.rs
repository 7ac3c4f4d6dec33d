//! The simulation core of a side-scrolling endless runner.
//!
//! A player jumps over enemies that scroll toward it, collects power-ups and
//! scores for every enemy left behind. The crate holds the per-frame rules of
//! that game: scrolling and respawning the ground strip, spawning and
//! retiring enemies and power-ups, gravity and the jump arc, and the
//! box-collision tests that feed the score and end the session.
//!
//! All quantities are whole numbers. Time is counted in microseconds,
//! distances in ticks of one ten-millionth of a world unit, and the
//! difficulty multiplier in tenths, so that the distance an object scrolls in
//! a frame, `speed * multiplier * dt`, is an exact number of ticks.

pub mod animation;
pub mod enemies;
pub mod geometry;
pub mod ground;
pub mod interact;
pub mod model;
pub mod player;
pub mod power_ups;
pub mod queue;
mod random;
pub mod scoreboard;
pub mod scroller;
pub mod stopwatch;
pub mod units;
pub mod world;
