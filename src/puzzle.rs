use vstd::prelude::*;

use crate::error::PuzzleError;
use crate::grid::{
    well_formed, parse_spec, digits_spec, is_grid, consistent, complete, is_solution, peers,
    cell_value, parse,
};
use crate::render::{display_line, render, grid_text, DISPLAY_LINES};
use crate::solver::{
    search, search_exec, check_consistent, lemma_search_sound, lemma_search_complete,
    lemma_next_cell_of_complete,
};

verus! {

/// What `solve` gives for puzzle text `s`: the digit text of the first
/// completion that the search finds.
pub open spec fn solve_spec(s: Seq<char>) -> Result<Seq<char>, PuzzleError> {
    if !well_formed(s) {
        Err(PuzzleError::InvalidGrid)
    } else if !consistent(parse_spec(s)) {
        Err(PuzzleError::InvalidGrid)
    } else {
        match search(parse_spec(s)) {
            Some(sol) => Ok(digits_spec(sol)),
            None => Err(PuzzleError::Unsolvable),
        }
    }
}

/// The text view of a solve result.
pub open spec fn solve_result_view(r: Result<String, PuzzleError>) -> Result<Seq<char>, PuzzleError> {
    match r {
        Ok(t) => Ok(t@),
        Err(e) => Err(e),
    }
}

/// Whether the grid of puzzle text `s` has a completion.
pub open spec fn has_solution(s: Seq<char>) -> bool {
    exists|sol: Seq<u8>| is_solution(sol, parse_spec(s))
}

/// Solves the puzzle in `puzzle` (81 characters, `0` or `.` for an empty
/// cell) and returns the completed grid as 81 digits in row-major order.
pub fn solve(puzzle: &str) -> (r: Result<String, PuzzleError>)
    ensures
        solve_result_view(r) == solve_spec(puzzle@),
        !well_formed(puzzle@) ==> r == Err::<String, PuzzleError>(PuzzleError::InvalidGrid),
        well_formed(puzzle@) && !consistent(parse_spec(puzzle@)) ==> r == Err::<
            String,
            PuzzleError,
        >(PuzzleError::InvalidGrid),
        r matches Ok(t) ==> well_formed(puzzle@) && t@.len() == 81 && is_solution(
            parse_spec(t@),
            parse_spec(puzzle@),
        ),
        r matches Err(e) && e == PuzzleError::Unsolvable ==> well_formed(puzzle@) && consistent(
            parse_spec(puzzle@),
        ) && !has_solution(puzzle@),
        well_formed(puzzle@) && consistent(parse_spec(puzzle@)) && has_solution(puzzle@) ==> r is Ok,
{
    let mut g = match parse(puzzle) {
        None => return Err(PuzzleError::InvalidGrid),
        Some(g) => g,
    };
    if !check_consistent(&g) {
        return Err(PuzzleError::InvalidGrid);
    }
    let ghost g0 = g@;
    if !search_exec(&mut g) {
        proof {
            lemma_search_complete(g0);
        }
        return Err(PuzzleError::Unsolvable);
    }
    proof {
        lemma_search_sound(g0, 1);
        lemma_parse_digits(g@);
    }
    Ok(grid_text(&g))
}

/// Renders the grid in `puzzle` as eleven lines: nine rows of digits with `|`
/// between column triads, and a separator line after the third and the
/// sixth row. The grid is shown as given, whether or not it keeps the rules.
pub fn display(puzzle: &str) -> (r: Result<Vec<String>, PuzzleError>)
    ensures
        r is Err <==> !well_formed(puzzle@),
        r matches Err(e) ==> e == PuzzleError::InvalidGrid,
        r matches Ok(lines) ==> lines@.len() == DISPLAY_LINES && forall|k: int|
            0 <= k < DISPLAY_LINES ==> (#[trigger] lines@[k])@ == display_line(
                parse_spec(puzzle@),
                k,
            ),
{
    match parse(puzzle) {
        None => Err(PuzzleError::InvalidGrid),
        Some(g) => Ok(render(&g)),
    }
}

/// Reading back the digit text of a grid gives the grid.
proof fn lemma_parse_digits(g: Seq<u8>)
    requires
        is_grid(g),
    ensures
        parse_spec(digits_spec(g)) == g,
        well_formed(digits_spec(g)),
{
    assert(parse_spec(digits_spec(g)) =~= g);
}

/// A grid that is already complete and keeps the rules is returned unchanged
/// by `solve`.
pub proof fn lemma_solved_grid_unchanged(s: Seq<char>)
    requires
        well_formed(s),
        complete(parse_spec(s)),
        consistent(parse_spec(s)),
    ensures
        solve_spec(s) == Ok::<Seq<char>, PuzzleError>(s),
{
    let g = parse_spec(s);
    lemma_next_cell_of_complete(g);
    assert forall|i: int| 0 <= i < 81 implies #[trigger] digits_spec(g)[i] == s[i] by {
        assert(g[i] == cell_value(s[i]));
        assert(g[i] != 0);
    }
    assert(digits_spec(g) =~= s);
}

/// A grid in which two peers hold the same digit fails `solve` with
/// `InvalidGrid`: no result is returned for it.
pub proof fn lemma_duplicate_rejected(s: Seq<char>, i: int, j: int)
    requires
        well_formed(s),
        0 <= i < 81,
        0 <= j < 81,
        peers(i, j),
        parse_spec(s)[i] != 0,
        parse_spec(s)[i] == parse_spec(s)[j],
    ensures
        solve_spec(s) == Err::<Seq<char>, PuzzleError>(PuzzleError::InvalidGrid),
{
}

/// `solve` depends on the puzzle text alone: the same text always gives the
/// same result, digit for digit.
pub proof fn lemma_solve_deterministic(s1: Seq<char>, s2: Seq<char>)
    requires
        s1 == s2,
    ensures
        solve_spec(s1) == solve_spec(s2),
{
}

} // verus!
