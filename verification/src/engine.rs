//! The Generation Engine: eight directional neighbour probes, the
//! Neighbour Counter, the Rule Evaluator, and the step that builds the
//! next board from the current one.

use vstd::prelude::*;

use crate::grid::in_bounds;
use crate::grid::is_next_generation;
use crate::grid::lemma_deep_view_row;
use crate::grid::live_at;
use crate::grid::neighbour_count;
use crate::grid::next_state;
use crate::grid::rectangular;

verus! {

/// Whether the cell directly above `pos` is alive; the row above the top
/// edge counts as dead.
pub fn above_alive(grid: &Vec<Vec<bool>>, pos: (usize, usize)) -> (r: bool)
    requires
        rectangular(grid.deep_view()),
        in_bounds(grid.deep_view(), pos.0 as int, pos.1 as int),
    ensures
        r == live_at(grid.deep_view(), pos.0 as int, pos.1 as int - 1),
{
    let (x, y) = pos;
    proof {
        assert(grid.deep_view().len() == grid@.len());
        lemma_deep_view_row(*grid, y as int);
    }
    if y == 0 {
        false
    } else {
        proof {
            lemma_deep_view_row(*grid, y as int - 1);
            assert(grid.deep_view()[y as int - 1].len() == grid.deep_view()[y as int].len());
        }
        grid[y - 1][x]
    }
}

/// Whether the cell above and to the right of `pos` is alive.
pub fn above_right_alive(grid: &Vec<Vec<bool>>, pos: (usize, usize)) -> (r: bool)
    requires
        rectangular(grid.deep_view()),
        in_bounds(grid.deep_view(), pos.0 as int, pos.1 as int),
    ensures
        r == live_at(grid.deep_view(), pos.0 as int + 1, pos.1 as int - 1),
{
    let (x, y) = pos;
    proof {
        assert(grid.deep_view().len() == grid@.len());
        lemma_deep_view_row(*grid, y as int);
    }
    let width = grid[y].len();
    if y == 0 || x + 1 == width {
        false
    } else {
        proof {
            lemma_deep_view_row(*grid, y as int - 1);
            assert(grid.deep_view()[y as int - 1].len() == grid.deep_view()[y as int].len());
        }
        grid[y - 1][x + 1]
    }
}

/// Whether the cell above and to the left of `pos` is alive.
pub fn above_left_alive(grid: &Vec<Vec<bool>>, pos: (usize, usize)) -> (r: bool)
    requires
        rectangular(grid.deep_view()),
        in_bounds(grid.deep_view(), pos.0 as int, pos.1 as int),
    ensures
        r == live_at(grid.deep_view(), pos.0 as int - 1, pos.1 as int - 1),
{
    let (x, y) = pos;
    proof {
        assert(grid.deep_view().len() == grid@.len());
        lemma_deep_view_row(*grid, y as int);
    }
    if y == 0 || x == 0 {
        false
    } else {
        proof {
            lemma_deep_view_row(*grid, y as int - 1);
            assert(grid.deep_view()[y as int - 1].len() == grid.deep_view()[y as int].len());
        }
        grid[y - 1][x - 1]
    }
}

/// Whether the cell to the left of `pos` is alive.
pub fn left_alive(grid: &Vec<Vec<bool>>, pos: (usize, usize)) -> (r: bool)
    requires
        rectangular(grid.deep_view()),
        in_bounds(grid.deep_view(), pos.0 as int, pos.1 as int),
    ensures
        r == live_at(grid.deep_view(), pos.0 as int - 1, pos.1 as int),
{
    let (x, y) = pos;
    proof {
        assert(grid.deep_view().len() == grid@.len());
        lemma_deep_view_row(*grid, y as int);
    }
    if x == 0 {
        false
    } else {
        grid[y][x - 1]
    }
}

/// Whether the cell to the right of `pos` is alive.
pub fn right_alive(grid: &Vec<Vec<bool>>, pos: (usize, usize)) -> (r: bool)
    requires
        rectangular(grid.deep_view()),
        in_bounds(grid.deep_view(), pos.0 as int, pos.1 as int),
    ensures
        r == live_at(grid.deep_view(), pos.0 as int + 1, pos.1 as int),
{
    let (x, y) = pos;
    proof {
        assert(grid.deep_view().len() == grid@.len());
        lemma_deep_view_row(*grid, y as int);
    }
    let width = grid[y].len();
    if x + 1 == width {
        false
    } else {
        grid[y][x + 1]
    }
}

/// Whether the cell directly below `pos` is alive; the row below the
/// bottom edge counts as dead.
pub fn below_alive(grid: &Vec<Vec<bool>>, pos: (usize, usize)) -> (r: bool)
    requires
        rectangular(grid.deep_view()),
        in_bounds(grid.deep_view(), pos.0 as int, pos.1 as int),
    ensures
        r == live_at(grid.deep_view(), pos.0 as int, pos.1 as int + 1),
{
    let (x, y) = pos;
    proof {
        assert(grid.deep_view().len() == grid@.len());
        lemma_deep_view_row(*grid, y as int);
    }
    let height = grid.len();
    if y + 1 == height {
        false
    } else {
        proof {
            lemma_deep_view_row(*grid, y as int + 1);
            assert(grid.deep_view()[y as int + 1].len() == grid.deep_view()[y as int].len());
        }
        grid[y + 1][x]
    }
}

/// Whether the cell below and to the right of `pos` is alive.
pub fn below_right_alive(grid: &Vec<Vec<bool>>, pos: (usize, usize)) -> (r: bool)
    requires
        rectangular(grid.deep_view()),
        in_bounds(grid.deep_view(), pos.0 as int, pos.1 as int),
    ensures
        r == live_at(grid.deep_view(), pos.0 as int + 1, pos.1 as int + 1),
{
    let (x, y) = pos;
    proof {
        assert(grid.deep_view().len() == grid@.len());
        lemma_deep_view_row(*grid, y as int);
    }
    let height = grid.len();
    let width = grid[y].len();
    if y + 1 == height || x + 1 == width {
        false
    } else {
        proof {
            lemma_deep_view_row(*grid, y as int + 1);
            assert(grid.deep_view()[y as int + 1].len() == grid.deep_view()[y as int].len());
        }
        grid[y + 1][x + 1]
    }
}

/// Whether the cell below and to the left of `pos` is alive.
pub fn below_left_alive(grid: &Vec<Vec<bool>>, pos: (usize, usize)) -> (r: bool)
    requires
        rectangular(grid.deep_view()),
        in_bounds(grid.deep_view(), pos.0 as int, pos.1 as int),
    ensures
        r == live_at(grid.deep_view(), pos.0 as int - 1, pos.1 as int + 1),
{
    let (x, y) = pos;
    proof {
        assert(grid.deep_view().len() == grid@.len());
        lemma_deep_view_row(*grid, y as int);
    }
    let height = grid.len();
    if y + 1 == height || x == 0 {
        false
    } else {
        proof {
            lemma_deep_view_row(*grid, y as int + 1);
            assert(grid.deep_view()[y as int + 1].len() == grid.deep_view()[y as int].len());
        }
        grid[y + 1][x - 1]
    }
}

/// The Neighbour Counter: how many of the eight cells around `pos` are
/// alive, with everything beyond the edges dead. A position off the board
/// gets 0 rather than an error.
pub fn count_neighbours(grid: &Vec<Vec<bool>>, pos: (usize, usize)) -> (n: usize)
    requires
        rectangular(grid.deep_view()),
    ensures
        in_bounds(grid.deep_view(), pos.0 as int, pos.1 as int) ==> n as int == neighbour_count(
            grid.deep_view(),
            pos.0 as int,
            pos.1 as int,
        ),
        !in_bounds(grid.deep_view(), pos.0 as int, pos.1 as int) ==> n == 0,
        n <= 8,
{
    let (x, y) = pos;
    proof {
        assert(grid.deep_view().len() == grid@.len());
        if (y as int) < grid@.len() {
            lemma_deep_view_row(*grid, y as int);
        }
    }
    if y < grid.len() && x < grid[y].len() {
        let mut n: usize = 0;
        if above_alive(grid, pos) {
            n += 1;
        }
        if above_right_alive(grid, pos) {
            n += 1;
        }
        if above_left_alive(grid, pos) {
            n += 1;
        }
        if left_alive(grid, pos) {
            n += 1;
        }
        if right_alive(grid, pos) {
            n += 1;
        }
        if below_alive(grid, pos) {
            n += 1;
        }
        if below_right_alive(grid, pos) {
            n += 1;
        }
        if below_left_alive(grid, pos) {
            n += 1;
        }
        n
    } else {
        0
    }
}

/// The Rule Evaluator: the next state of one cell from its current state
/// and its live-neighbour count. Total: defined for every count.
pub fn next_cell_state(alive: bool, neighbours: usize) -> (r: bool)
    ensures
        r == next_state(alive, neighbours as int),
{
    if neighbours < 2 {
        false
    } else if neighbours > 3 {
        false
    } else if neighbours == 2 {
        alive
    } else {
        true
    }
}

/// The Generation Engine: builds the successor board of a rectangular
/// board without touching the input. Every cell of the result is the rule
/// applied to the corresponding cell of the input and its neighbour count
/// there.
pub fn update(grid: &Vec<Vec<bool>>) -> (next: Vec<Vec<bool>>)
    requires
        rectangular(grid.deep_view()),
    ensures
        is_next_generation(grid.deep_view(), next.deep_view()),
{
    let mut next: Vec<Vec<bool>> = Vec::new();
    let mut y: usize = 0;
    proof {
        assert(grid.deep_view().len() == grid@.len());
    }
    while y < grid.len()
        invariant
            rectangular(grid.deep_view()),
            y <= grid@.len(),
            grid.deep_view().len() == grid@.len(),
            next.deep_view().len() == y,
            forall|j: int| 0 <= j < y ==> #[trigger] next.deep_view()[j].len()
                == grid.deep_view()[j].len(),
            forall|i: int, j: int|
                0 <= j < y && 0 <= i < grid.deep_view()[j].len() ==> #[trigger] next.deep_view()[j][i]
                    == next_state(
                    grid.deep_view()[j][i],
                    neighbour_count(grid.deep_view(), i, j),
                ),
        decreases grid@.len() - y,
    {
        proof {
            lemma_deep_view_row(*grid, y as int);
        }
        let mut row: Vec<bool> = Vec::new();
        let mut x: usize = 0;
        while x < grid[y].len()
            invariant
                rectangular(grid.deep_view()),
                y < grid@.len(),
                grid.deep_view().len() == grid@.len(),
                grid.deep_view()[y as int] == grid@[y as int]@,
                x <= grid@[y as int]@.len(),
                row@.len() == x,
                forall|i: int| 0 <= i < x ==> #[trigger] row@[i] == next_state(
                    grid.deep_view()[y as int][i],
                    neighbour_count(grid.deep_view(), i, y as int),
                ),
            decreases grid@[y as int]@.len() - x,
        {
            let alive = grid[y][x];
            let n = count_neighbours(grid, (x, y));
            row.push(next_cell_state(alive, n));
            x += 1;
        }
        let ghost prev = next.deep_view();
        next.push(row);
        proof {
            assert(next.deep_view() =~~= prev.push(row@));
        }
        y += 1;
    }
    next
}

} // verus!
