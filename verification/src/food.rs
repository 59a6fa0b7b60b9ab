//! Deterministic food placement: given the set of occupied cells and a
//! starting candidate drawn at random, scan forward (x increasing, then y
//! decreasing), wrap once from the bottom-right corner back to the top-left
//! cell, and report the first unoccupied cell; report no placement when the
//! grid is full.

use vstd::prelude::*;
use vstd::arithmetic::div_mod::{
    lemma_fundamental_div_mod, lemma_fundamental_div_mod_converse, lemma_mod_bound,
    lemma_multiply_divide_lt,
};
use vstd::arithmetic::mul::{lemma_mul_inequality, lemma_mul_nonnegative};
use crate::grid::{Cell, Grid};

verus! {

/// Number of cells in the grid.
pub open spec fn cell_count(g: Grid) -> int {
    g.width * g.height
}

/// Position of a cell in scan order: x increases first, then y decreases,
/// so the scan starts counting at the top-left cell `(0, height - 1)` and
/// ends at the bottom-right cell `(width - 1, 0)`.
pub open spec fn scan_index(g: Grid, c: Cell) -> int {
    c.x + g.width * (g.height - 1 - c.y)
}

/// The cell at a given scan position; inverse of `scan_index`.
pub open spec fn cell_at(g: Grid, idx: int) -> Cell {
    Cell {
        x: (idx % (g.width as int)) as i32,
        y: (g.height - 1 - idx / (g.width as int)) as i32,
    }
}

/// A scan position advanced by `k` steps, wrapped once past the end of the
/// grid.
pub open spec fn wrap_index(idx: int, n: int) -> int {
    if idx < n {
        idx
    } else {
        idx - n
    }
}

/// The `k`-th cell visited by a scan that starts at scan position `idx0`.
pub open spec fn scan_cell(g: Grid, idx0: int, k: int) -> Cell {
    cell_at(g, wrap_index(idx0 + k, cell_count(g)))
}

/// The cell the scan visits directly after `c`: one step in x, falling to
/// the row below when x leaves the grid, wrapping to the top-left cell from
/// the bottom-right corner.
pub open spec fn step_cell(g: Grid, c: Cell) -> Cell {
    if c.x + 1 < g.width {
        Cell { x: (c.x + 1) as i32, y: c.y }
    } else if c.y > 0 {
        Cell { x: 0, y: (c.y - 1) as i32 }
    } else {
        Cell { x: 0, y: (g.height - 1) as i32 }
    }
}

/// What `place_food_from` returns: no placement exactly when every cell is
/// occupied; otherwise the first unoccupied cell in scan order from the
/// starting candidate, so the result is determined by the occupancy and the
/// candidate alone.
pub open spec fn placement_post(g: Grid, occupied: Seq<Cell>, start: Cell, r: Option<Cell>) -> bool {
    let n = cell_count(g);
    let idx0 = scan_index(g, start);
    match r {
        Option::None => forall|c: Cell| g.spec_contains(c) ==> occupied.contains(c),
        Option::Some(c) => {
            &&& g.spec_contains(c)
            &&& !occupied.contains(c)
            &&& exists|k: int|
                0 <= k < n && c == scan_cell(g, idx0, k) && (forall|j: int|
                    0 <= j < k ==> occupied.contains(#[trigger] scan_cell(g, idx0, j)))
        },
    }
}

/// A cell inside the grid has a scan position inside the grid's cell count,
/// and `cell_at` recovers the cell from it.
pub proof fn lemma_scan_index_bounds(g: Grid, c: Cell)
    requires
        g.wf(),
        g.spec_contains(c),
    ensures
        0 <= scan_index(g, c) < cell_count(g),
        cell_at(g, scan_index(g, c)) == c,
{
    let w = g.width as int;
    let h = g.height as int;
    let q = h - 1 - c.y;
    let idx = scan_index(g, c);
    lemma_mul_nonnegative(w, q);
    lemma_mul_inequality(q, h - 1, w);
    assert((h - 1) * w == w * h - w) by (nonlinear_arith);
    assert(q * w == w * q) by (nonlinear_arith);
    assert(idx < cell_count(g));
    lemma_fundamental_div_mod_converse(idx, w, q, c.x as int);
}

/// A scan position inside the grid's cell count names a cell inside the
/// grid, and `scan_index` recovers the position from it.
pub proof fn lemma_cell_at_bounds(g: Grid, idx: int)
    requires
        g.wf(),
        0 <= idx < cell_count(g),
    ensures
        g.spec_contains(cell_at(g, idx)),
        scan_index(g, cell_at(g, idx)) == idx,
{
    let w = g.width as int;
    let h = g.height as int;
    lemma_mod_bound(idx, w);
    lemma_fundamental_div_mod(idx, w);
    assert(w * h == h * w) by (nonlinear_arith);
    lemma_multiply_divide_lt(idx, w, h);
    assert(0 <= idx / w < h);
    assert(scan_index(g, cell_at(g, idx)) == idx % w + w * (idx / w));
    assert(idx % w + w * (idx / w) == idx);
}

/// Taking one scan step from a cell moves its scan position one forward,
/// back to position zero from the last cell of the grid.
pub proof fn lemma_scan_step(g: Grid, c: Cell)
    requires
        g.wf(),
        g.spec_contains(c),
    ensures
        g.spec_contains(step_cell(g, c)),
        scan_index(g, step_cell(g, c)) == (if scan_index(g, c) == cell_count(g) - 1 {
            0int
        } else {
            scan_index(g, c) + 1
        }),
{
    let w = g.width as int;
    let h = g.height as int;
    let q = h - 1 - c.y;
    let idx = scan_index(g, c);
    lemma_scan_index_bounds(g, c);
    if c.x + 1 < g.width {
        assert(scan_index(g, step_cell(g, c)) == idx + 1);
        assert(idx != cell_count(g) - 1) by {
            if idx == w * h - 1 {
                lemma_mul_inequality(q, h - 1, w);
                assert((h - 1) * w == w * h - w) by (nonlinear_arith);
                assert(q * w == w * q) by (nonlinear_arith);
                assert(c.x >= w - 1);
            }
        }
    } else {
        assert(c.x == g.width - 1);
        if c.y > 0 {
            assert(scan_index(g, step_cell(g, c)) == w - 1 + w * q + 1) by {
                assert(w * (q + 1) == w * q + w) by (nonlinear_arith);
            }
            assert(idx != cell_count(g) - 1) by {
                if idx == w * h - 1 {
                    assert(w - 1 + w * q == w * h - 1);
                    assert(w * (q + 1) == w * q + w) by (nonlinear_arith);
                    assert(w * (q + 1) == w * h);
                    assert(q + 1 == h) by (nonlinear_arith)
                        requires w * (q + 1) == w * h && w > 0;
                    assert(c.y == 0);
                }
            }
        } else {
            assert(scan_index(g, step_cell(g, c)) == 0);
            assert(q == h - 1);
            assert(w - 1 + w * (h - 1) == w * h - 1) by (nonlinear_arith);
            assert(idx == cell_count(g) - 1);
        }
    }
}

fn cell_vec_contains(v: &Vec<Cell>, c: Cell) -> (r: bool)
    ensures
        r == v@.contains(c),
{
    let n = v.len();
    let mut i: usize = 0;
    while i < n
        invariant
            n == v@.len(),
            i <= n,
            forall|j: int| 0 <= j < i ==> v@[j] != c,
        decreases n - i,
    {
        if v[i] == c {
            return true;
        }
        i += 1;
    }
    false
}

/// Finds an unoccupied cell, scanning forward from the starting candidate
/// `start` (x increasing, y decreasing on x overflow), wrapping exactly once
/// from the bottom-right corner to the top-left cell; the first unoccupied
/// cell found is the result, and a fully occupied grid yields no placement.
pub fn place_food_from(grid: &Grid, occupied: &Vec<Cell>, start: Cell) -> (r: Option<Cell>)
    requires
        grid.wf(),
        grid.spec_contains(start),
    ensures
        placement_post(*grid, occupied@, start, r),
{
    let w = grid.width;
    let h = grid.height;
    let n = w * h;
    let ghost idx0 = scan_index(*grid, start);
    proof {
        lemma_scan_index_bounds(*grid, start);
    }
    let mut x = start.x;
    let mut y = start.y;
    let mut k: i32 = 0;
    while k < n
        invariant
            grid.wf(),
            w == grid.width,
            h == grid.height,
            n == cell_count(*grid),
            idx0 == scan_index(*grid, start),
            0 <= idx0 < n,
            0 <= k <= n,
            0 <= x < w,
            0 <= y < h,
            (Cell { x, y }) == scan_cell(*grid, idx0, k as int),
            forall|j: int| 0 <= j < k ==> occupied@.contains(#[trigger] scan_cell(*grid, idx0, j)),
        decreases n - k,
    {
        let c = Cell { x, y };
        if !cell_vec_contains(occupied, c) {
            proof {
                assert(grid.spec_contains(c));
                assert(c == scan_cell(*grid, idx0, k as int));
            }
            return Some(c);
        }
        proof {
            let i = wrap_index(idx0 + k, n as int);
            lemma_cell_at_bounds(*grid, i);
            assert(scan_index(*grid, c) == i);
            lemma_scan_step(*grid, c);
            assert(wrap_index(idx0 + k + 1, n as int) == (if i == n - 1 {
                0int
            } else {
                i + 1
            }));
            lemma_cell_at_bounds(*grid, wrap_index(idx0 + k + 1, n as int));
            assert(step_cell(*grid, c) == cell_at(*grid, scan_index(*grid, step_cell(*grid, c))))
                by {
                lemma_scan_index_bounds(*grid, step_cell(*grid, c));
            }
            assert(step_cell(*grid, c) == scan_cell(*grid, idx0, k + 1));
        }
        if x + 1 < w {
            x = x + 1;
        } else {
            x = 0;
            if y > 0 {
                y = y - 1;
            } else {
                y = h - 1;
            }
        }
        k = k + 1;
    }
    proof {
        assert forall|c: Cell| grid.spec_contains(c) implies occupied@.contains(c) by {
            lemma_scan_index_bounds(*grid, c);
            let ic = scan_index(*grid, c);
            let kk = if ic >= idx0 {
                ic - idx0
            } else {
                ic - idx0 + n
            };
            assert(0 <= kk < n);
            assert(wrap_index(idx0 + kk, n as int) == ic);
            assert(scan_cell(*grid, idx0, kk) == c);
            assert(occupied@.contains(scan_cell(*grid, idx0, kk)));
        }
    }
    None
}

/// Food placement determinism: an occupancy that covers every cell of the
/// grid except one makes the placement return exactly that cell, whatever
/// starting candidate the random draw produced.
pub proof fn lemma_placement_unique(
    g: Grid,
    occupied: Seq<Cell>,
    start: Cell,
    r: Option<Cell>,
    free: Cell,
)
    requires
        g.wf(),
        placement_post(g, occupied, start, r),
        g.spec_contains(free),
        !occupied.contains(free),
        forall|c: Cell| g.spec_contains(c) && c != free ==> occupied.contains(c),
    ensures
        r == Some(free),
{
    match r {
        Option::None => {
            assert(occupied.contains(free));
        },
        Option::Some(c) => {
            assert(c == free);
        },
    }
}

/// Degenerate condition: a fully occupied grid yields no placement, for
/// every starting candidate.
pub proof fn lemma_placement_full(g: Grid, occupied: Seq<Cell>, start: Cell, r: Option<Cell>)
    requires
        g.wf(),
        placement_post(g, occupied, start, r),
        forall|c: Cell| g.spec_contains(c) ==> occupied.contains(c),
    ensures
        r is None,
{
    match r {
        Option::None => {
        },
        Option::Some(c) => {
            assert(occupied.contains(c));
        },
    }
}

} // verus!
