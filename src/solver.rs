use vstd::prelude::*;

use crate::grid::{
    CELLS, is_grid, consistent, complete, is_solution, is_candidate, peers,
};

verus! {

/// Number of digits `1..=d` that may go in cell `c`.
pub open spec fn count_candidates_upto(g: Seq<u8>, c: int, d: int) -> nat
    decreases d,
{
    if d <= 0 {
        0
    } else {
        count_candidates_upto(g, c, d - 1) + if is_candidate(g, c, d as u8) {
            1nat
        } else {
            0nat
        }
    }
}

/// Size of the candidate set of cell `c`.
pub open spec fn candidate_count(g: Seq<u8>, c: int) -> nat {
    count_candidates_upto(g, c, 9)
}

/// Among the cells before `n`, the empty one with the fewest candidates, the
/// lowest index winning ties; -1 when none of them is empty.
pub open spec fn scan_best(g: Seq<u8>, n: int) -> int
    decreases n,
{
    if n <= 0 {
        -1
    } else {
        let b = scan_best(g, n - 1);
        if g[n - 1] != 0 {
            b
        } else if b < 0 || candidate_count(g, n - 1) < candidate_count(g, b) {
            n - 1
        } else {
            b
        }
    }
}

/// The cell the search fills next, or -1 when the grid is complete.
pub open spec fn next_cell(g: Seq<u8>) -> int {
    scan_best(g, g.len() as int)
}

/// Number of empty cells.
pub open spec fn empties(g: Seq<u8>) -> nat
    decreases g.len(),
{
    if g.len() == 0 {
        0
    } else {
        empties(g.drop_last()) + if g.last() == 0 {
            1nat
        } else {
            0nat
        }
    }
}

/// The first completion found by backtracking from grid `g`, trying digits
/// `d..=9` in the next cell.
pub open spec fn search_from(g: Seq<u8>, d: int) -> Option<Seq<u8>>
    decreases empties(g), 10 - d,
    via search_from_decreases
{
    let c = next_cell(g);
    if c < 0 {
        Some(g)
    } else if d > 9 {
        None
    } else if is_candidate(g, c, d as u8) {
        match search_from(g.update(c, d as u8), 1) {
            Some(s) => Some(s),
            None => search_from(g, d + 1),
        }
    } else {
        search_from(g, d + 1)
    }
}

/// The first completion found by backtracking from grid `g`.
pub open spec fn search(g: Seq<u8>) -> Option<Seq<u8>> {
    search_from(g, 1)
}

proof fn lemma_scan_best(g: Seq<u8>, n: int)
    requires
        0 <= n <= g.len(),
    ensures
        scan_best(g, n) < n,
        scan_best(g, n) >= 0 ==> g[scan_best(g, n)] == 0,
        scan_best(g, n) < 0 ==> forall|k: int| 0 <= k < n ==> #[trigger] g[k] != 0,
    decreases n,
{
    if n > 0 {
        lemma_scan_best(g, n - 1);
    }
}

proof fn lemma_empties_update(g: Seq<u8>, c: int, v: u8)
    requires
        0 <= c < g.len(),
        g[c] == 0,
        v != 0,
    ensures
        empties(g.update(c, v)) + 1 == empties(g),
    decreases g.len(),
{
    let h = g.update(c, v);
    if c < g.len() - 1 {
        assert(h.drop_last() =~= g.drop_last().update(c, v));
        lemma_empties_update(g.drop_last(), c, v);
    } else {
        assert(h.drop_last() =~= g.drop_last());
    }
}

/// The cell the search fills next is the empty cell with the fewest
/// candidates, the lowest index among equals; there is none only when the grid
/// is complete.
pub proof fn lemma_next_cell_most_constrained(g: Seq<u8>)
    ensures
        next_cell(g) < 0 <==> complete(g),
        next_cell(g) >= 0 ==> {
            let c = next_cell(g);
            &&& c < g.len()
            &&& g[c] == 0
            &&& forall|j: int|
                0 <= j < g.len() && #[trigger] g[j] == 0 ==> candidate_count(g, c)
                    <= candidate_count(g, j)
            &&& forall|j: int|
                0 <= j < c && #[trigger] g[j] == 0 ==> candidate_count(g, c) < candidate_count(g, j)
        },
{
    lemma_scan_best_minimal(g, g.len() as int);
}

proof fn lemma_scan_best_minimal(g: Seq<u8>, n: int)
    requires
        0 <= n <= g.len(),
    ensures
        scan_best(g, n) < n,
        scan_best(g, n) < 0 <==> forall|k: int| 0 <= k < n ==> #[trigger] g[k] != 0,
        scan_best(g, n) >= 0 ==> {
            let c = scan_best(g, n);
            &&& g[c] == 0
            &&& forall|j: int|
                0 <= j < n && #[trigger] g[j] == 0 ==> candidate_count(g, c) <= candidate_count(g, j)
            &&& forall|j: int|
                0 <= j < c && #[trigger] g[j] == 0 ==> candidate_count(g, c) < candidate_count(g, j)
        },
    decreases n,
{
    if n > 0 {
        lemma_scan_best_minimal(g, n - 1);
        let b = scan_best(g, n - 1);
        if b < 0 && g[n - 1] != 0 {
            assert forall|k: int| 0 <= k < n implies #[trigger] g[k] != 0 by {
                if k < n - 1 {
                    assert(g[k] != 0);
                }
            }
        }
    }
}

/// A complete grid has no next cell.
pub proof fn lemma_next_cell_of_complete(g: Seq<u8>)
    requires
        complete(g),
    ensures
        next_cell(g) < 0,
        search(g) == Some(g),
{
    lemma_scan_best(g, g.len() as int);
}

#[via_fn]
proof fn search_from_decreases(g: Seq<u8>, d: int) {
    lemma_scan_best(g, g.len() as int);
    let c = next_cell(g);
    if c >= 0 && d <= 9 && is_candidate(g, c, d as u8) {
        lemma_empties_update(g, c, d as u8);
    }
}

/// Whether cells `i` and `j` are peers.
fn is_peer(i: usize, j: usize) -> (r: bool)
    requires
        i < 81,
        j < 81,
    ensures
        r == peers(i as int, j as int),
{
    let bi = (i / 9 / 3) * 3 + (i % 9) / 3;
    let bj = (j / 9 / 3) * 3 + (j % 9) / 3;
    i != j && (i / 9 == j / 9 || i % 9 == j % 9 || bi == bj)
}

/// Whether digit `d` may go in cell `c`.
fn check_candidate(g: &Vec<u8>, c: usize, d: u8) -> (r: bool)
    requires
        g@.len() == 81,
        c < 81,
        1 <= d <= 9,
    ensures
        r == is_candidate(g@, c as int, d),
{
    let mut j: usize = 0;
    while j < CELLS
        invariant
            g@.len() == 81,
            c < 81,
            1 <= d <= 9,
            j <= 81,
            forall|k: int| 0 <= k < j && peers(c as int, k) ==> #[trigger] g@[k] != d,
        decreases 81 - j,
    {
        if is_peer(c, j) && g[j] == d {
            return false;
        }
        j = j + 1;
    }
    true
}

/// Size of the candidate set of cell `c`.
fn count_candidates(g: &Vec<u8>, c: usize) -> (r: u8)
    requires
        g@.len() == 81,
        c < 81,
    ensures
        r == candidate_count(g@, c as int),
{
    let mut n: u8 = 0;
    let mut d: u8 = 1;
    while d <= 9
        invariant
            g@.len() == 81,
            c < 81,
            1 <= d <= 10,
            n == count_candidates_upto(g@, c as int, d - 1),
            n < d,
        decreases 10 - d,
    {
        if check_candidate(g, c, d) {
            n = n + 1;
        }
        d = d + 1;
    }
    n
}

/// The empty cell with the fewest candidates, the lowest index winning ties;
/// `None` when the grid is complete.
fn find_next_cell(g: &Vec<u8>) -> (r: Option<usize>)
    requires
        g@.len() == 81,
    ensures
        match r {
            None => next_cell(g@) < 0,
            Some(c) => next_cell(g@) == c && c < 81,
        },
{
    let mut best: Option<usize> = None;
    let mut best_count: u8 = 0;
    let mut i: usize = 0;
    while i < CELLS
        invariant
            g@.len() == 81,
            i <= 81,
            match best {
                None => scan_best(g@, i as int) < 0,
                Some(b) => scan_best(g@, i as int) == b && b < i && best_count == candidate_count(
                    g@,
                    b as int,
                ),
            },
        decreases 81 - i,
    {
        if g[i] == 0 {
            let n = count_candidates(g, i);
            match best {
                None => {
                    best = Some(i);
                    best_count = n;
                },
                Some(_) => {
                    if n < best_count {
                        best = Some(i);
                        best_count = n;
                    }
                },
            }
        }
        i = i + 1;
    }
    best
}

/// Completes `g` by backtracking, filling the most constrained cell first and
/// trying its candidates in ascending order. On failure `g` is left as it was.
pub(crate) fn search_exec(g: &mut Vec<u8>) -> (found: bool)
    requires
        old(g)@.len() == 81,
    ensures
        found == search(old(g)@) is Some,
        found ==> final(g)@ == search(old(g)@)->0,
        !found ==> final(g)@ == old(g)@,
    decreases empties(old(g)@),
{
    let ghost g0 = g@;
    let c = match find_next_cell(g) {
        None => return true,
        Some(c) => c,
    };
    proof {
        lemma_scan_best(g0, 81);
    }
    let mut d: u8 = 1;
    while d <= 9
        invariant
            g@ == g0,
            g0 == old(g)@,
            g0.len() == 81,
            c < 81,
            c as int == next_cell(g0),
            g0[c as int] == 0,
            1 <= d <= 10,
            search_from(g0, 1) == search_from(g0, d as int),
        decreases 10 - d,
    {
        if check_candidate(g, c, d) {
            g.set(c, d);
            proof {
                lemma_empties_update(g0, c as int, d);
            }
            if search_exec(g) {
                assert(search_from(g0, d as int) == search_from(g0.update(c as int, d), 1));
                return true;
            }
            g.set(c, 0);
            proof {
                assert(g@ =~= g0);
            }
        }
        d = d + 1;
    }
    false
}

/// Whether no two peers of `g` hold the same digit.
pub fn check_consistent(g: &Vec<u8>) -> (r: bool)
    requires
        g@.len() == 81,
    ensures
        r == consistent(g@),
{
    let mut i: usize = 0;
    while i < CELLS
        invariant
            g@.len() == 81,
            i <= 81,
            forall|a: int, b: int|
                0 <= a < i && 0 <= b < 81 && peers(a, b) && #[trigger] g@[a] != 0 ==> g@[a]
                    != #[trigger] g@[b],
        decreases 81 - i,
    {
        let mut j: usize = 0;
        while j < CELLS
            invariant
                g@.len() == 81,
                i < 81,
                j <= 81,
                forall|a: int, b: int|
                    0 <= a < i && 0 <= b < 81 && peers(a, b) && #[trigger] g@[a] != 0 ==> g@[a]
                        != #[trigger] g@[b],
                forall|b: int|
                    0 <= b < j && peers(i as int, b) && g@[i as int] != 0 ==> g@[i as int]
                        != #[trigger] g@[b],
            decreases 81 - j,
        {
            if g[i] != 0 && g[i] == g[j] && is_peer(i, j) {
                return false;
            }
            j = j + 1;
        }
        i = i + 1;
    }
    true
}

/// Placing a candidate keeps a consistent grid consistent.
proof fn lemma_place_candidate(g: Seq<u8>, c: int, d: u8)
    requires
        is_grid(g),
        consistent(g),
        0 <= c < 81,
        g[c] == 0,
        is_candidate(g, c, d),
    ensures
        is_grid(g.update(c, d)),
        consistent(g.update(c, d)),
{
    let h = g.update(c, d);
    assert forall|i: int, j: int|
        0 <= i < h.len() && 0 <= j < h.len() && peers(i, j) && #[trigger] h[i] != 0 implies h[i]
        != #[trigger] h[j] by {
        if i == c {
            assert(g[j] != d);
        } else if j == c {
            assert(peers(c, i));
            assert(g[i] != d);
        } else {
            assert(g[i] != g[j]);
        }
    }
}

/// Whatever the search returns completes the grid it started from.
pub proof fn lemma_search_sound(g: Seq<u8>, d: int)
    requires
        is_grid(g),
        consistent(g),
        search_from(g, d) is Some,
    ensures
        is_solution(search_from(g, d)->0, g),
    decreases empties(g), 10 - d,
{
    lemma_scan_best(g, 81);
    let c = next_cell(g);
    if c < 0 {
    } else if d > 9 {
    } else {
        if is_candidate(g, c, d as u8) && search_from(g.update(c, d as u8), 1) is Some {
            let h = g.update(c, d as u8);
            lemma_empties_update(g, c, d as u8);
            lemma_place_candidate(g, c, d as u8);
            lemma_search_sound(h, 1);
            let s = search_from(h, 1)->0;
            assert forall|i: int| 0 <= i < g.len() && #[trigger] g[i] != 0 implies s[i] == g[i] by {
                assert(h[i] == g[i]);
            }
        } else {
            lemma_search_sound(g, d + 1);
        }
    }
}

/// When the search from digit `d` fails, no completion of `g` puts a digit of
/// at least `d` in the next cell.
proof fn lemma_search_complete_from(g: Seq<u8>, d: int)
    requires
        is_grid(g),
        1 <= d,
        search_from(g, d) is None,
    ensures
        0 <= next_cell(g) < 81,
        forall|sol: Seq<u8>| is_solution(sol, g) ==> sol[next_cell(g)] < d,
    decreases empties(g), 10 - d,
{
    lemma_scan_best(g, 81);
    let c = next_cell(g);
    if d <= 9 {
        lemma_search_complete_from(g, d + 1);
        assert forall|sol: Seq<u8>| is_solution(sol, g) implies sol[c] != d by {
            if is_candidate(g, c, d as u8) {
                let h = g.update(c, d as u8);
                lemma_empties_update(g, c, d as u8);
                lemma_search_complete_from(h, 1);
                if sol[c] == d {
                    assert(is_solution(sol, h));
                    assert(sol[next_cell(h)] != 0);
                }
            } else {
                let j = choose|j: int| 0 <= j < g.len() && peers(c, j) && g[j] == d as u8;
                assert(sol[j] == g[j]);
                assert(sol[c] != sol[j]);
            }
        }
    } else {
        assert forall|sol: Seq<u8>| is_solution(sol, g) implies sol[c] < d by {
            assert(sol[c] <= 9);
        }
    }
}

/// When the search fails, the grid has no completion.
pub proof fn lemma_search_complete(g: Seq<u8>)
    requires
        is_grid(g),
        search(g) is None,
    ensures
        forall|sol: Seq<u8>| !is_solution(sol, g),
{
    lemma_search_complete_from(g, 1);
    assert forall|sol: Seq<u8>| !is_solution(sol, g) by {
        if is_solution(sol, g) {
            assert(sol[next_cell(g)] != 0);
        }
    }
}

} // verus!
