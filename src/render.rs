use vstd::prelude::*;

use crate::grid::{CELLS, digit_char, digits_spec};

verus! {

/// Three cells of row `r`, starting at column `3 * t`, each followed by a space.
pub open spec fn triad(g: Seq<u8>, r: int, t: int) -> Seq<char> {
    let i = 9 * r + 3 * t;
    seq![digit_char(g[i]), ' ', digit_char(g[i + 1]), ' ', digit_char(g[i + 2]), ' ']
}

/// Row `r` as shown: its nine digits, with `|` between the column triads.
pub open spec fn row_line(g: Seq<u8>, r: int) -> Seq<char> {
    triad(g, r, 0) + seq!['|'] + triad(g, r, 1) + seq!['|'] + triad(g, r, 2)
}

/// The line that separates the row triads.
pub open spec fn separator_line() -> Seq<char> {
    "------+------+------"@
}

/// Line `k` (0 to 10) of the display: the nine rows, with a separator line
/// after the third and the sixth.
pub open spec fn display_line(g: Seq<u8>, k: int) -> Seq<char> {
    if k == 3 || k == 7 {
        separator_line()
    } else {
        row_line(g, k - k / 4)
    }
}

/// Number of lines in a display.
pub const DISPLAY_LINES: usize = 11;

/// The one-character text of a cell value.
fn digit_text(v: u8) -> (r: &'static str)
    requires
        v <= 9,
    ensures
        r@ == seq![digit_char(v)],
{
    proof {
        reveal_strlit("0");
        reveal_strlit("1");
        reveal_strlit("2");
        reveal_strlit("3");
        reveal_strlit("4");
        reveal_strlit("5");
        reveal_strlit("6");
        reveal_strlit("7");
        reveal_strlit("8");
        reveal_strlit("9");
    }
    match v {
        0 => "0",
        1 => "1",
        2 => "2",
        3 => "3",
        4 => "4",
        5 => "5",
        6 => "6",
        7 => "7",
        8 => "8",
        _ => "9",
    }
}

/// The 81-character digit text of a grid.
pub fn grid_text(g: &Vec<u8>) -> (r: String)
    requires
        g@.len() == 81,
        forall|i: int| 0 <= i < 81 ==> #[trigger] g@[i] <= 9,
    ensures
        r@ == digits_spec(g@),
{
    let mut s = String::new();
    let mut i: usize = 0;
    while i < CELLS
        invariant
            g@.len() == 81,
            forall|i: int| 0 <= i < 81 ==> #[trigger] g@[i] <= 9,
            i <= 81,
            s@ == digits_spec(g@.subrange(0, i as int)),
        decreases 81 - i,
    {
        s.append(digit_text(g[i]));
        proof {
            assert(g@.subrange(0, i + 1) =~= g@.subrange(0, i as int).push(g@[i as int]));
            assert(digits_spec(g@.subrange(0, i + 1)) =~= digits_spec(g@.subrange(0, i as int))
                + seq![digit_char(g@[i as int])]);
        }
        i = i + 1;
    }
    proof {
        assert(g@.subrange(0, 81) =~= g@);
    }
    s
}

/// Appends `triad(g, r, t)` to `s`.
fn push_triad(s: &mut String, g: &Vec<u8>, r: usize, t: usize)
    requires
        g@.len() == 81,
        forall|i: int| 0 <= i < 81 ==> #[trigger] g@[i] <= 9,
        r < 9,
        t < 3,
    ensures
        final(s)@ == old(s)@ + triad(g@, r as int, t as int),
{
    proof {
        reveal_strlit(" ");
    }
    let i = 9 * r + 3 * t;
    s.append(digit_text(g[i]));
    s.append(" ");
    s.append(digit_text(g[i + 1]));
    s.append(" ");
    s.append(digit_text(g[i + 2]));
    s.append(" ");
    assert(s@ =~= old(s)@ + triad(g@, r as int, t as int));
}

/// Row `r` of the grid as shown.
fn render_row(g: &Vec<u8>, r: usize) -> (line: String)
    requires
        g@.len() == 81,
        forall|i: int| 0 <= i < 81 ==> #[trigger] g@[i] <= 9,
        r < 9,
    ensures
        line@ == row_line(g@, r as int),
{
    proof {
        reveal_strlit("|");
    }
    let mut s = String::new();
    push_triad(&mut s, g, r, 0);
    s.append("|");
    push_triad(&mut s, g, r, 1);
    s.append("|");
    push_triad(&mut s, g, r, 2);
    assert(s@ =~= row_line(g@, r as int));
    s
}

/// The display lines of a grid: nine rows and two separator lines.
pub fn render(g: &Vec<u8>) -> (lines: Vec<String>)
    requires
        g@.len() == 81,
        forall|i: int| 0 <= i < 81 ==> #[trigger] g@[i] <= 9,
    ensures
        lines@.len() == DISPLAY_LINES,
        forall|k: int| 0 <= k < DISPLAY_LINES ==> (#[trigger] lines@[k])@ == display_line(g@, k),
{
    let mut lines: Vec<String> = Vec::new();
    let mut r: usize = 0;
    while r < 9
        invariant
            g@.len() == 81,
            forall|i: int| 0 <= i < 81 ==> #[trigger] g@[i] <= 9,
            r <= 9,
            lines@.len() == r + if r >= 6 {
                2int
            } else if r >= 3 {
                1int
            } else {
                0int
            },
            forall|k: int| 0 <= k < lines@.len() ==> (#[trigger] lines@[k])@ == display_line(g@, k),
        decreases 9 - r,
    {
        lines.push(render_row(g, r));
        if r == 2 || r == 5 {
            lines.push(String::from_str("------+------+------"));
        }
        r = r + 1;
    }
    lines
}

} // verus!
