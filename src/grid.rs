use vstd::prelude::*;

verus! {

/// Number of cells in a grid.
pub const CELLS: usize = 81;

/// Whether `c` may stand for a cell in puzzle text: a digit, or `.` for an empty cell.
pub open spec fn is_cell_char(c: char) -> bool {
    ('0' <= c && c <= '9') || c == '.'
}

/// The cell value a puzzle character stands for (0 for empty).
pub open spec fn cell_value(c: char) -> u8 {
    if '1' <= c && c <= '9' {
        (c as u32 - '0' as u32) as u8
    } else {
        0
    }
}

/// Whether `s` is a puzzle text: exactly 81 characters, each a cell character.
pub open spec fn well_formed(s: Seq<char>) -> bool {
    s.len() == 81 && forall|i: int| 0 <= i < s.len() ==> is_cell_char(#[trigger] s[i])
}

/// The grid a puzzle text describes, in row-major order.
pub open spec fn parse_spec(s: Seq<char>) -> Seq<u8> {
    s.map_values(|c: char| cell_value(c))
}

/// The digit character of a cell value.
pub open spec fn digit_char(v: u8) -> char {
    ('0' as u8 + v) as char
}

/// The 81-character digit text of a grid.
pub open spec fn digits_spec(g: Seq<u8>) -> Seq<char> {
    g.map_values(|v: u8| digit_char(v))
}

/// The row of cell `i`.
pub open spec fn row_of(i: int) -> int {
    i / 9
}

/// The column of cell `i`.
pub open spec fn col_of(i: int) -> int {
    i % 9
}

/// The box of cell `i`, numbered 0 to 8 in row-major order.
pub open spec fn box_of(i: int) -> int {
    (row_of(i) / 3) * 3 + col_of(i) / 3
}

/// Whether two distinct cells share a row, a column or a box.
pub open spec fn peers(i: int, j: int) -> bool {
    i != j && (row_of(i) == row_of(j) || col_of(i) == col_of(j) || box_of(i) == box_of(j))
}

/// 81 cells, each holding 0 (empty) or a digit 1 to 9.
pub open spec fn is_grid(g: Seq<u8>) -> bool {
    g.len() == 81 && forall|i: int| 0 <= i < 81 ==> #[trigger] g[i] <= 9
}

/// No two peers hold the same digit.
pub open spec fn consistent(g: Seq<u8>) -> bool {
    forall|i: int, j: int|
        0 <= i < g.len() && 0 <= j < g.len() && peers(i, j) && #[trigger] g[i] != 0 ==> g[i]
            != #[trigger] g[j]
}

/// No cell is empty.
pub open spec fn complete(g: Seq<u8>) -> bool {
    forall|i: int| 0 <= i < g.len() ==> #[trigger] g[i] != 0
}

/// `sol` is a finished grid that keeps every clue of `g`.
pub open spec fn is_solution(sol: Seq<u8>, g: Seq<u8>) -> bool {
    &&& is_grid(sol)
    &&& complete(sol)
    &&& consistent(sol)
    &&& sol.len() == g.len()
    &&& forall|i: int| 0 <= i < g.len() && #[trigger] g[i] != 0 ==> sol[i] == g[i]
}

/// Whether digit `d` may go in cell `c`: no peer of `c` holds it.
pub open spec fn is_candidate(g: Seq<u8>, c: int, d: u8) -> bool {
    1 <= d <= 9 && forall|j: int| 0 <= j < g.len() && peers(c, j) ==> #[trigger] g[j] != d
}

/// The cell value of a character, for a character of puzzle text.
fn char_to_cell(c: char) -> (r: u8)
    ensures
        r == cell_value(c),
{
    if '1' <= c && c <= '9' {
        (c as u32 - '0' as u32) as u8
    } else {
        0
    }
}

/// Reads puzzle text into a grid, or `None` when it is not puzzle text.
pub fn parse(s: &str) -> (r: Option<Vec<u8>>)
    ensures
        r is None <==> !well_formed(s@),
        r matches Some(g) ==> g@ == parse_spec(s@) && is_grid(g@),
{
    let n = s.unicode_len();
    if n != CELLS {
        return None;
    }
    let mut g: Vec<u8> = Vec::new();
    let mut i: usize = 0;
    while i < n
        invariant
            n == s@.len() == 81,
            i <= n,
            g@ == parse_spec(s@.subrange(0, i as int)),
            forall|k: int| 0 <= k < i ==> is_cell_char(#[trigger] s@[k]),
        decreases n - i,
    {
        let c = s.get_char(i);
        if !(('0' <= c && c <= '9') || c == '.') {
            return None;
        }
        g.push(char_to_cell(c));
        proof {
            assert(s@.subrange(0, i + 1) =~= s@.subrange(0, i as int).push(c));
        }
        i = i + 1;
    }
    proof {
        assert(s@.subrange(0, 81) =~= s@);
    }
    Some(g)
}

} // verus!
