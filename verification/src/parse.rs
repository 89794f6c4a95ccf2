//! The text format of a saved board: each line of the input is one row,
//! tokens within a line are separated by blank characters, and a token
//! that is exactly the letter `x` is a live cell; any other token is a
//! dead cell.

use vstd::prelude::*;

verus! {

/// The byte that separates rows.
pub const NEWLINE: u8 = 10;

/// The byte whose one-letter token marks a live cell (the letter `x`).
pub const LIVE_MARK: u8 = 120;

/// Blank bytes that separate tokens within a line: space, horizontal tab,
/// vertical tab, form feed and carriage return. A carriage return before
/// a newline is thereby ignored, so files with either line ending parse
/// alike.
pub open spec fn is_blank(b: u8) -> bool {
    b == 32 || b == 9 || b == 11 || b == 12 || b == 13
}

fn blank_byte(b: u8) -> (r: bool)
    ensures
        r == is_blank(b),
{
    b == 32 || b == 9 || b == 11 || b == 12 || b == 13
}

/// The row encoded by the bytes of `s` between `i` and `end`: one cell
/// per token, live exactly when the token is the single byte `x`.
pub open spec fn row_of_line(s: Seq<u8>, i: int, end: int) -> Seq<bool>
    decreases end - i, 0int,
{
    if i < 0 || i >= end {
        Seq::empty()
    } else if is_blank(s[i]) {
        row_of_line(s, i + 1, end)
    } else {
        seq![s[i] == LIVE_MARK && (i + 1 >= end || is_blank(s[i + 1]))] + rest_of_row(s, i + 1, end)
    }
}

/// The cells that follow the token beginning before `i`: the remaining
/// bytes of that token are skipped, and the row resumes at the first
/// blank.
pub open spec fn rest_of_row(s: Seq<u8>, i: int, end: int) -> Seq<bool>
    decreases end - i, 1int,
{
    if i < 0 || i >= end {
        Seq::empty()
    } else if is_blank(s[i]) {
        row_of_line(s, i, end)
    } else {
        rest_of_row(s, i + 1, end)
    }
}

/// The position of the first newline at or after `i`, or the end of the
/// input if there is none.
pub open spec fn line_end(s: Seq<u8>, i: int) -> int
    decreases s.len() - i,
{
    if 0 <= i < s.len() {
        if s[i] == NEWLINE {
            i
        } else {
            line_end(s, i + 1)
        }
    } else {
        i
    }
}

pub proof fn lemma_line_end(s: Seq<u8>, i: int)
    requires
        0 <= i <= s.len(),
    ensures
        i <= line_end(s, i) <= s.len(),
        line_end(s, i) < s.len() ==> s[line_end(s, i)] == NEWLINE,
    decreases s.len() - i,
{
    if i < s.len() && s[i] != NEWLINE {
        lemma_line_end(s, i + 1);
    }
}

/// The board encoded by the input from `i` on: one row per line, the
/// final newline optional.
pub open spec fn rows_of_input(s: Seq<u8>, i: int) -> Seq<Seq<bool>>
    decreases s.len() - i,
    via rows_of_input_decreases
{
    if 0 <= i < s.len() {
        let e = line_end(s, i);
        seq![row_of_line(s, i, e)] + (if e >= s.len() {
            Seq::empty()
        } else {
            rows_of_input(s, e + 1)
        })
    } else {
        Seq::empty()
    }
}

#[via_fn]
proof fn rows_of_input_decreases(s: Seq<u8>, i: int) {
    if 0 <= i < s.len() {
        lemma_line_end(s, i);
    }
}

/// Finds the first newline at or after `i`, or the end of the input.
fn find_line_end(input: &Vec<u8>, i: usize) -> (e: usize)
    requires
        i <= input@.len(),
    ensures
        e as int == line_end(input@, i as int),
        i <= e <= input@.len(),
{
    let mut j: usize = i;
    while j < input.len() && input[j] != NEWLINE
        invariant
            i <= j <= input@.len(),
            line_end(input@, i as int) == line_end(input@, j as int),
        decreases input@.len() - j,
    {
        j += 1;
    }
    j
}

/// Parses the bytes of one line into a row of cells.
fn parse_row(input: &Vec<u8>, start: usize, end: usize) -> (row: Vec<bool>)
    requires
        start <= end <= input@.len(),
    ensures
        row@ == row_of_line(input@, start as int, end as int),
{
    let mut row: Vec<bool> = Vec::new();
    let mut i: usize = start;
    while i < end
        invariant
            start <= i <= end <= input@.len(),
            row_of_line(input@, start as int, end as int) == row@ + row_of_line(
                input@,
                i as int,
                end as int,
            ),
        decreases end - i,
    {
        if blank_byte(input[i]) {
            i += 1;
        } else {
            let alive = input[i] == LIVE_MARK && (i + 1 >= end || blank_byte(input[i + 1]));
            let ghost before = row@;
            let ghost mark: int = i as int;
            row.push(alive);
            i += 1;
            while i < end && !blank_byte(input[i])
                invariant
                    mark < i <= end <= input@.len(),
                    rest_of_row(input@, i as int, end as int) == rest_of_row(
                        input@,
                        mark + 1,
                        end as int,
                    ),
                decreases end - i,
            {
                i += 1;
            }
            proof {
                assert(rest_of_row(input@, i as int, end as int) == row_of_line(
                    input@,
                    i as int,
                    end as int,
                ));
                assert(row_of_line(input@, mark, end as int) == seq![alive] + rest_of_row(
                    input@,
                    mark + 1,
                    end as int,
                ));
                assert(before + (seq![alive] + row_of_line(input@, i as int, end as int)) =~= row@
                    + row_of_line(input@, i as int, end as int));
            }
        }
    }
    proof {
        assert(row@ + row_of_line(input@, i as int, end as int) =~= row@);
    }
    row
}

/// Parses a whole input into a board: one row per line. The result may
/// still be ragged or empty; `valid_grid` decides whether it can be
/// simulated.
pub fn parse_grid(input: &Vec<u8>) -> (grid: Vec<Vec<bool>>)
    ensures
        grid.deep_view() == rows_of_input(input@, 0),
{
    let mut grid: Vec<Vec<bool>> = Vec::new();
    let mut i: usize = 0;
    proof {
        assert(grid.deep_view() =~~= Seq::<Seq<bool>>::empty());
        assert(Seq::<Seq<bool>>::empty() + rows_of_input(input@, 0) =~= rows_of_input(input@, 0));
    }
    while i < input.len()
        invariant
            i <= input@.len(),
            rows_of_input(input@, 0) == grid.deep_view() + rows_of_input(input@, i as int),
        decreases input@.len() - i,
    {
        let e = find_line_end(input, i);
        let row = parse_row(input, i, e);
        let ghost prev = grid.deep_view();
        let ghost at: int = i as int;
        grid.push(row);
        proof {
            assert(grid.deep_view() =~~= prev.push(row@));
        }
        if e < input.len() {
            i = e + 1;
        } else {
            i = input.len();
        }
        proof {
            assert(rows_of_input(input@, at) == seq![row@] + (if e as int >= input@.len() {
                Seq::<Seq<bool>>::empty()
            } else {
                rows_of_input(input@, i as int)
            }));
            assert(prev + rows_of_input(input@, at) =~~= grid.deep_view() + rows_of_input(
                input@,
                i as int,
            ));
        }
    }
    proof {
        assert(grid.deep_view() + rows_of_input(input@, i as int) =~~= grid.deep_view());
    }
    grid
}

} // verus!
