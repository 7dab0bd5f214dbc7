//! A Sudoku puzzle engine: the board, its legality rules, the puzzle text
//! format, and the mapping from pointer and key input to board edits.
//!
//! Drawing and windowing are left to the embedding program, which reads the
//! public state of [`Gameboard`] and [`GameboardController`].

pub mod gameboard;
pub mod gameboard_controller;
pub mod sdm;

pub use crate::gameboard::{Cell, Gameboard};
pub use crate::gameboard_controller::{GameboardController, InputEvent};
pub use crate::sdm::ParseError;
