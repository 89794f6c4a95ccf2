//! Laying a board out as terminal text: three bytes per cell (` x ` for a
//! live cell, ` . ` for a dead one), each row followed by a blank line.

use vstd::prelude::*;

use crate::parse::NEWLINE;

verus! {

/// The three bytes that draw one cell: ` x ` when alive, ` . ` when dead.
pub open spec fn glyph(alive: bool) -> Seq<u8> {
    if alive {
        seq![32u8, 120u8, 32u8]
    } else {
        seq![32u8, 46u8, 32u8]
    }
}

/// The bytes that draw row `row` from column `i` on.
pub open spec fn rendered_row(row: Seq<bool>, i: int) -> Seq<u8>
    decreases row.len() - i,
{
    if 0 <= i < row.len() {
        glyph(row[i]) + rendered_row(row, i + 1)
    } else {
        Seq::empty()
    }
}

/// The bytes that draw board `g` from row `y` on: each row's glyphs, then
/// a newline ending the row and a newline for the blank line after it.
pub open spec fn rendered_grid(g: Seq<Seq<bool>>, y: int) -> Seq<u8>
    decreases g.len() - y,
{
    if 0 <= y < g.len() {
        rendered_row(g[y], 0) + seq![NEWLINE, NEWLINE] + rendered_grid(g, y + 1)
    } else {
        Seq::empty()
    }
}

/// Draws the whole board as the bytes a terminal shows between two
/// generations.
pub fn render_grid(grid: &Vec<Vec<bool>>) -> (out: Vec<u8>)
    ensures
        out@ == rendered_grid(grid.deep_view(), 0),
{
    let mut out: Vec<u8> = Vec::new();
    let mut y: usize = 0;
    proof {
        assert(grid.deep_view().len() == grid@.len());
        assert(out@ + rendered_grid(grid.deep_view(), 0) =~= rendered_grid(grid.deep_view(), 0));
    }
    while y < grid.len()
        invariant
            y <= grid@.len(),
            grid.deep_view().len() == grid@.len(),
            rendered_grid(grid.deep_view(), 0) == out@ + rendered_grid(grid.deep_view(), y as int),
        decreases grid@.len() - y,
    {
        proof {
            crate::grid::lemma_deep_view_row(*grid, y as int);
        }
        let ghost g = grid.deep_view();
        let mut x: usize = 0;
        proof {
            assert(rendered_grid(g, y as int) == rendered_row(g[y as int], 0) + seq![
                NEWLINE,
                NEWLINE,
            ] + rendered_grid(g, y as int + 1));
            assert(out@ + rendered_grid(g, y as int) =~= out@ + rendered_row(g[y as int], 0)
                + seq![NEWLINE, NEWLINE] + rendered_grid(g, y as int + 1));
        }
        while x < grid[y].len()
            invariant
                y < grid@.len(),
                g == grid.deep_view(),
                g.len() == grid@.len(),
                g[y as int] == grid@[y as int]@,
                x <= grid@[y as int]@.len(),
                rendered_grid(g, 0) == out@ + rendered_row(g[y as int], x as int) + seq![
                    NEWLINE,
                    NEWLINE,
                ] + rendered_grid(g, y as int + 1),
            decreases grid@[y as int]@.len() - x,
        {
            let ghost prev = out@;
            if grid[y][x] {
                out.push(32);
                out.push(120);
                out.push(32);
            } else {
                out.push(32);
                out.push(46);
                out.push(32);
            }
            proof {
                assert(out@ =~= prev + glyph(g[y as int][x as int]));
                assert(rendered_row(g[y as int], x as int) == glyph(g[y as int][x as int])
                    + rendered_row(g[y as int], x as int + 1));
                assert(out@ + rendered_row(g[y as int], x as int + 1) =~= prev + rendered_row(
                    g[y as int],
                    x as int,
                ));
                assert(out@ + rendered_row(g[y as int], x as int + 1) + seq![NEWLINE, NEWLINE]
                    + rendered_grid(g, y as int + 1) =~= prev + rendered_row(g[y as int], x as int)
                    + seq![NEWLINE, NEWLINE] + rendered_grid(g, y as int + 1));
            }
            x += 1;
        }
        let ghost prev = out@;
        out.push(NEWLINE);
        out.push(NEWLINE);
        proof {
            assert(rendered_row(g[y as int], x as int) =~= Seq::<u8>::empty());
            assert(out@ + rendered_grid(g, y as int + 1) =~= prev + rendered_row(
                g[y as int],
                x as int,
            ) + seq![NEWLINE, NEWLINE] + rendered_grid(g, y as int + 1));
        }
        y += 1;
    }
    proof {
        assert(out@ + rendered_grid(grid.deep_view(), y as int) =~= out@);
    }
    out
}

} // verus!
