//! A terminal Battleship game library: ship placement on a 10x10 grid,
//! guess resolution with hit counting, a fog-of-war view for the guessing
//! player, input parsing, and text rendering of boards.

pub mod board;
pub mod game;
pub mod parse;
pub mod placement;
pub mod render;
pub mod resolve;
pub mod tile;
