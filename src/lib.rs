//! A 9x9 Sudoku engine: reads puzzle text into a grid, completes it by
//! backtracking search over candidate sets, and renders grids for display.

use vstd::prelude::*;

pub mod error;
pub mod grid;
pub mod solver;
pub mod render;
pub mod puzzle;
pub mod reply;

pub use error::PuzzleError;
pub use puzzle::{solve, display};
pub use reply::{SolveReply, DisplayReply, solve_reply, display_reply};

verus! {

} // verus!
