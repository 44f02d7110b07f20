//! A drop-board game of seven columns and six rows for a person and a
//! machine: the board with its gravity drops and its search for lines of
//! four, and the evaluator that picks the machine's column.
//!
//! `grid` holds the mathematical model of the playing grid and the
//! primitives on it, `board` the live board, `score` the arithmetic of
//! scores, `bot` the evaluator, `old_bot` a plainer evaluator, and `game` the
//! turns of the two players.

pub mod coin;
pub mod game_state;
pub mod grid;
pub mod score;
pub mod board;
pub mod bot;
pub mod old_bot;
pub mod game;
