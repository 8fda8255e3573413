//! Round controller for a tiled whack-a-mole game.
//!
//! The library owns the round-scoped state (spawn timer, spawn interval,
//! score, phase) and the set of enemies on the playfield, and advances it
//! one frame at a time. Everything the engine would supply — elapsed time,
//! pointer state, animation progress, random draws — comes in as plain
//! values in a [`round::FrameInput`], and everything the engine must act on
//! (sounds to play, a spawned enemy, a phase change) goes back out in a
//! [`round::FrameOutput`]. Time is measured in whole milliseconds and world
//! positions in whole milli-units, so that every rule of the game is exact
//! integer arithmetic.

pub mod digits;
pub mod grid;
pub mod mallet;
pub mod round;
