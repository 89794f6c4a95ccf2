//! The mathematical model of a board: a sequence of rows of boolean cell
//! states, together with the Life rule itself, and the laws that the
//! generation step obeys.

use vstd::prelude::*;

verus! {

/// All rows have the same length as the first row (vacuously true of an
/// empty board).
pub open spec fn rectangular(g: Seq<Seq<bool>>) -> bool {
    forall|y: int| 0 <= y < g.len() ==> #[trigger] g[y].len() == g[0].len()
}

/// A board is valid when it has at least one row and is rectangular.
pub open spec fn grid_valid(g: Seq<Seq<bool>>) -> bool {
    g.len() > 0 && rectangular(g)
}

/// Whether the position (x, y) lies on the board and holds a live cell.
/// Positions off the board count as dead.
pub open spec fn live_at(g: Seq<Seq<bool>>, x: int, y: int) -> bool {
    0 <= y < g.len() && 0 <= x < g[y].len() && g[y][x]
}

/// What one cell adds to a neighbour count.
pub open spec fn one_if(alive: bool) -> int {
    if alive {
        1
    } else {
        0
    }
}

/// The number of live cells among the eight positions surrounding (x, y);
/// positions outside the board contribute nothing.
pub open spec fn neighbour_count(g: Seq<Seq<bool>>, x: int, y: int) -> int {
    one_if(live_at(g, x - 1, y - 1)) + one_if(live_at(g, x, y - 1)) + one_if(
        live_at(g, x + 1, y - 1),
    ) + one_if(live_at(g, x - 1, y)) + one_if(live_at(g, x + 1, y)) + one_if(
        live_at(g, x - 1, y + 1),
    ) + one_if(live_at(g, x, y + 1)) + one_if(live_at(g, x + 1, y + 1))
}

/// The Life thresholds: fewer than two live neighbours kills, more than
/// three kills, exactly two keeps the current state, exactly three gives
/// life.
pub open spec fn next_state(alive: bool, neighbours: int) -> bool {
    if neighbours < 2 {
        false
    } else if neighbours > 3 {
        false
    } else if neighbours == 2 {
        alive
    } else {
        true
    }
}

/// Whether the position (x, y) lies on the board.
pub open spec fn in_bounds(g: Seq<Seq<bool>>, x: int, y: int) -> bool {
    0 <= y < g.len() && 0 <= x < g[y].len()
}

/// `r` is the successor generation of `g`: same row count, same row
/// lengths, and every cell is the rule applied to the old cell and its
/// neighbour count in the old board.
pub open spec fn is_next_generation(g: Seq<Seq<bool>>, r: Seq<Seq<bool>>) -> bool {
    &&& r.len() == g.len()
    &&& forall|y: int| 0 <= y < g.len() ==> #[trigger] r[y].len() == g[y].len()
    &&& forall|x: int, y: int|
        in_bounds(g, x, y) ==> #[trigger] r[y][x] == next_state(g[y][x], neighbour_count(g, x, y))
}

/// A corner cell has neighbours only on the in-bounds side: at the
/// top-left corner the count ranges over just the cell to the right, the
/// cell below, and the cell below-right; the five positions beyond the
/// edges contribute nothing.
pub proof fn lemma_corner_neighbours(g: Seq<Seq<bool>>)
    ensures
        neighbour_count(g, 0, 0) == one_if(live_at(g, 1, 0)) + one_if(live_at(g, 0, 1)) + one_if(
            live_at(g, 1, 1),
        ),
{
}

/// Detection of an invalid board is exact: an empty board is rejected,
/// and so is any board with a row whose length differs from the first
/// row's.
pub proof fn lemma_invalid_grid_rejected(g: Seq<Seq<bool>>)
    ensures
        g.len() == 0 ==> !grid_valid(g),
        forall|y: int| 0 <= y < g.len() && #[trigger] g[y].len() != g[0].len() ==> !grid_valid(g),
{
}

/// The generation step is deterministic: any two boards that are each a
/// successor of the same board are equal.
pub proof fn lemma_generation_deterministic(g: Seq<Seq<bool>>, a: Seq<Seq<bool>>, b: Seq<Seq<bool>>)
    requires
        is_next_generation(g, a),
        is_next_generation(g, b),
    ensures
        a == b,
{
    assert forall|y: int| 0 <= y < a.len() implies a[y] =~= b[y] by {
        assert(a[y].len() == g[y].len());
        assert(b[y].len() == g[y].len());
        assert forall|x: int| 0 <= x < a[y].len() implies a[y][x] == b[y][x] by {
            assert(in_bounds(g, x, y));
            assert(a[y][x] == next_state(g[y][x], neighbour_count(g, x, y)));
            assert(b[y][x] == next_state(g[y][x], neighbour_count(g, x, y)));
        }
    }
    assert(a =~~= b);
}

/// The generation step preserves the board's dimensions: the successor
/// has the same row count and the same length for every row.
pub proof fn lemma_dimensions_preserved(g: Seq<Seq<bool>>, r: Seq<Seq<bool>>)
    requires
        is_next_generation(g, r),
    ensures
        r.len() == g.len(),
        forall|y: int| 0 <= y < g.len() ==> #[trigger] r[y].len() == g[y].len(),
{
}

/// The successor of a valid board is again valid, so the simulation can
/// run forever once the input board has been accepted.
pub proof fn lemma_next_generation_valid(g: Seq<Seq<bool>>, r: Seq<Seq<bool>>)
    requires
        rectangular(g),
        is_next_generation(g, r),
    ensures
        rectangular(r),
        grid_valid(g) ==> grid_valid(r),
{
    assert forall|y: int| 0 <= y < r.len() implies #[trigger] r[y].len() == r[0].len() by {
        assert(g[y].len() == g[0].len());
        assert(r[y].len() == g[y].len());
    }
}

/// Row `y` of the nested view of a vector of rows is the view of row `y`.
pub proof fn lemma_deep_view_row(grid: Vec<Vec<bool>>, y: int)
    requires
        0 <= y < grid@.len(),
    ensures
        grid.deep_view().len() == grid@.len(),
        grid.deep_view()[y] == grid@[y]@,
{
    assert(grid.deep_view()[y] =~= grid@[y]@);
}

/// Decides whether a board is valid: non-empty, and every row as long as
/// the first.
pub fn valid_grid(grid: &Vec<Vec<bool>>) -> (r: bool)
    ensures
        r == grid_valid(grid.deep_view()),
{
    if grid.len() == 0 {
        return false;
    }
    let width = grid[0].len();
    let mut y: usize = 1;
    while y < grid.len()
        invariant
            1 <= y <= grid@.len(),
            grid@.len() > 0,
            width == grid.deep_view()[0].len(),
            forall|j: int| 0 <= j < y ==> #[trigger] grid.deep_view()[j].len() == width,
        decreases grid@.len() - y,
    {
        if grid[y].len() != width {
            proof {
                assert(grid.deep_view()[y as int].len() != grid.deep_view()[0].len());
                assert(!rectangular(grid.deep_view()));
            }
            return false;
        }
        y += 1;
    }
    true
}

} // verus!
