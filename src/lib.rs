//! A number-guessing game as a verified state machine, together with a few
//! small verified list and counting routines.
pub mod parse;
pub mod game;
pub mod exercises;
