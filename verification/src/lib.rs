//! Tic-tac-toe against a computer that cannot be beaten.
//!
//! - [`board`]: the grid, the eight winning lines and the empty cells.
//! - [`engine`]: the minimax search that picks a move.
//! - [`optimal`]: the search returns the best score there is, and the lowest
//!   cell that reaches it.
//! - [`grid`], [`openings`], [`unbeaten`]: whatever the human plays from the
//!   empty grid, the computer's answers keep them from winning.
//! - [`session`]: a game in progress and what each command does to it.
//! - [`screen`]: the picture of a game as text for a terminal.

pub mod board;
pub mod engine;
pub mod grid;
pub mod openings;
pub mod optimal;
pub mod screen;
pub mod session;
pub mod unbeaten;
