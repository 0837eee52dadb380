use sudoku::grid::parse;
use sudoku::solver::check_consistent;
use sudoku::{display, solve, PuzzleError};

const PUZZLE: &str = "700000600060001070804020005000470000089000340000039000600050709010300020003000004";
const SOLUTION: &str = "791543682562981473834726915356478291289615347147239568628154739415397826973862154";
const INVALID_MESSAGE: &str = "Invalid Grid. Provide a string of 81 digits with 0 or . for empties.";

fn is_valid_solution(puzzle: &str, sol: &str) -> bool {
    let p: Vec<u8> = puzzle.bytes().collect();
    let s: Vec<u8> = sol.bytes().collect();
    if s.len() != 81 || p.len() != 81 {
        return false;
    }
    for i in 0..81 {
        if !(b'1'..=b'9').contains(&s[i]) {
            return false;
        }
        if (b'1'..=b'9').contains(&p[i]) && p[i] != s[i] {
            return false;
        }
    }
    for i in 0..81 {
        for j in 0..81 {
            if i == j {
                continue;
            }
            let same_row = i / 9 == j / 9;
            let same_col = i % 9 == j % 9;
            let same_box = i / 27 == j / 27 && (i % 9) / 3 == (j % 9) / 3;
            if (same_row || same_col || same_box) && s[i] == s[j] {
                return false;
            }
        }
    }
    true
}

#[test]
fn solves_known_puzzle() {
    assert_eq!(solve(PUZZLE), Ok(SOLUTION.to_string()));
}

#[test]
fn dots_count_as_empty_cells() {
    let dotted = PUZZLE.replace('0', ".");
    assert_eq!(solve(&dotted), Ok(SOLUTION.to_string()));
}

#[test]
fn displays_known_puzzle() {
    let lines = display("309800000000500000250009600480000097700000005930000061008300056000006000000007403").unwrap();
    let expected = vec![
        "3 0 9 |8 0 0 |0 0 0 ",
        "0 0 0 |5 0 0 |0 0 0 ",
        "2 5 0 |0 0 9 |6 0 0 ",
        "------+------+------",
        "4 8 0 |0 0 0 |0 9 7 ",
        "7 0 0 |0 0 0 |0 0 5 ",
        "9 3 0 |0 0 0 |0 6 1 ",
        "------+------+------",
        "0 0 8 |3 0 0 |0 5 6 ",
        "0 0 0 |0 0 6 |0 0 0 ",
        "0 0 0 |0 0 7 |4 0 3 ",
    ];
    assert_eq!(lines, expected);
}

#[test]
fn display_shows_dots_as_zero() {
    let lines = display(&".".repeat(81)).unwrap();
    assert_eq!(lines.len(), 11);
    assert_eq!(lines[0], "0 0 0 |0 0 0 |0 0 0 ");
}

#[test]
fn display_keeps_inconsistent_grid() {
    let puzzle = format!("11{}", "0".repeat(79));
    let lines = display(&puzzle).unwrap();
    assert_eq!(lines[0], "1 1 0 |0 0 0 |0 0 0 ");
}

#[test]
fn wrong_length_is_invalid() {
    for text in ["", "0", &PUZZLE[..80], &format!("{}0", PUZZLE)] {
        assert_eq!(solve(text), Err(PuzzleError::InvalidGrid));
        assert_eq!(display(text), Err(PuzzleError::InvalidGrid));
    }
}

#[test]
fn bad_character_is_invalid() {
    for bad in ["X", "a", " ", "-", "é"] {
        let text = format!("{}{}", bad, &PUZZLE[1..]);
        assert_eq!(solve(&text), Err(PuzzleError::InvalidGrid));
        assert_eq!(display(&text), Err(PuzzleError::InvalidGrid));
    }
}

#[test]
fn invalid_grid_message_is_fixed() {
    assert_eq!(PuzzleError::InvalidGrid.message(), INVALID_MESSAGE);
    let err = solve("123").unwrap_err();
    assert_eq!(err.message(), INVALID_MESSAGE);
    assert_ne!(PuzzleError::Unsolvable.message(), INVALID_MESSAGE);
}

#[test]
fn solved_grid_is_returned_unchanged() {
    assert_eq!(solve(SOLUTION), Ok(SOLUTION.to_string()));
}

#[test]
fn full_grid_with_duplicate_is_invalid() {
    let mut cells: Vec<char> = SOLUTION.chars().collect();
    cells.swap(0, 1);
    let text: String = cells.into_iter().collect();
    assert_eq!(solve(&text), Err(PuzzleError::InvalidGrid));
}

#[test]
fn duplicate_in_row_fails() {
    let text = format!("5000000050{}", "0".repeat(71));
    assert!(solve(&text).is_err());
}

#[test]
fn duplicate_in_column_fails() {
    let mut cells = vec!['0'; 81];
    cells[4] = '7';
    cells[9 * 8 + 4] = '7';
    let text: String = cells.into_iter().collect();
    assert!(solve(&text).is_err());
}

#[test]
fn duplicate_in_box_fails() {
    let mut cells = vec!['0'; 81];
    cells[60] = '3';
    cells[80] = '3';
    let text: String = cells.into_iter().collect();
    assert!(solve(&text).is_err());
}

#[test]
fn consistent_dead_end_is_unsolvable() {
    let mut cells: Vec<char> = "12345678".chars().collect();
    cells.extend(std::iter::repeat('0').take(73));
    cells[9 * 4 + 8] = '9';
    let text: String = cells.into_iter().collect();
    assert_eq!(solve(&text), Err(PuzzleError::Unsolvable));
}

#[test]
fn solve_is_repeatable() {
    let first = solve(PUZZLE);
    for _ in 0..3 {
        assert_eq!(solve(PUZZLE), first);
    }
}

#[test]
fn empty_grid_gets_a_valid_solution() {
    let empty = "0".repeat(81);
    let sol = solve(&empty).unwrap();
    assert!(is_valid_solution(&empty, &sol));
    assert_eq!(solve(&empty).unwrap(), sol);
}

#[test]
fn solution_keeps_clues_and_rules() {
    let sol = solve(PUZZLE).unwrap();
    assert!(is_valid_solution(PUZZLE, &sol));
}

#[test]
fn parse_reads_row_major() {
    let g = parse(PUZZLE).unwrap();
    assert_eq!(g.len(), 81);
    assert_eq!(g[0], 7);
    assert_eq!(g[6], 6);
    assert_eq!(g[10], 6);
    assert_eq!(g[80], 4);
    assert_eq!(parse("1.3"), None);
    let dotted = parse(&".".repeat(81)).unwrap();
    assert!(dotted.iter().all(|&v| v == 0));
}

#[test]
fn consistency_check_finds_peers() {
    let g = parse(PUZZLE).unwrap();
    assert!(check_consistent(&g));
    let mut bad = g.clone();
    bad[1] = 7;
    assert!(!check_consistent(&bad));
}
