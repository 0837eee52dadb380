use vstd::prelude::*;

verus! {

/// The two ways a puzzle request can fail.
#[derive(Debug, Clone, Copy, PartialEq, Eq, Structural)]
pub enum PuzzleError {
    /// The text is not a grid, or a grid that breaks the rules of the game.
    InvalidGrid,
    /// A well-formed grid that has no completion.
    Unsolvable,
}

/// The message of `InvalidGrid`.
pub open spec fn invalid_grid_text() -> Seq<char> {
    "Invalid Grid. Provide a string of 81 digits with 0 or . for empties."@
}

/// The message of `Unsolvable`.
pub open spec fn unsolvable_text() -> Seq<char> {
    "Puzzle is unsolvable."@
}

impl PuzzleError {
    /// The fixed message shown to users for this error.
    pub open spec fn spec_message(self) -> Seq<char> {
        match self {
            PuzzleError::InvalidGrid => invalid_grid_text(),
            PuzzleError::Unsolvable => unsolvable_text(),
        }
    }

    /// The fixed message shown to users for this error.
    pub fn message(&self) -> (r: String)
        ensures
            r@ == self.spec_message(),
    {
        match self {
            PuzzleError::InvalidGrid => String::from_str("Invalid Grid. Provide a string of 81 digits with 0 or . for empties."),
            PuzzleError::Unsolvable => String::from_str("Puzzle is unsolvable."),
        }
    }
}

} // verus!
