//! The grid index model: pure arithmetic on flat cell indices of a
//! `width x width` board.
//!
//! Vertical moves wrap around the whole board (modulo `size`), while
//! horizontal moves wrap within the head's row (modulo `width`).  This
//! asymmetry makes the board behave as a torus without diagonal
//! bleed-through at the corners.

use vstd::prelude::*;

verus! {

use vstd::arithmetic::div_mod::{
    lemma_add_mod_noop_right, lemma_fundamental_div_mod, lemma_fundamental_div_mod_converse_div,
    lemma_fundamental_div_mod_converse_mod, lemma_mod_bound, lemma_mod_multiples_vanish,
    lemma_small_mod,
};

/// The four directions the snake can face or turn toward.
#[derive(Clone, Copy, PartialEq, Eq, Structural, Debug)]
pub enum Direction {
    Up,
    Right,
    Down,
    Left,
}

/// The direction that geometrically undoes a move in `direction`.
pub open spec fn opposite(direction: Direction) -> Direction {
    match direction {
        Direction::Up => Direction::Down,
        Direction::Right => Direction::Left,
        Direction::Down => Direction::Up,
        Direction::Left => Direction::Right,
    }
}

/// The flat index reached by one move from `idx` in `direction` on a board
/// of `size == width * width` cells: moving up or down shifts by a whole
/// row and wraps modulo `size`, moving right or left stays within the row
/// of `idx` and wraps the column modulo `width`.
pub open spec fn spec_next_index(direction: Direction, idx: int, width: int, size: int) -> int {
    let row = idx / width;
    match direction {
        Direction::Up => (idx - width) % size,
        Direction::Right => row * width + ((idx + 1) % width),
        Direction::Down => (idx + width) % size,
        Direction::Left => row * width + ((idx - 1) % width),
    }
}

/// Computes the cell one move away from `idx` in `direction`.
pub fn next_cell(direction: &Direction, idx: usize, width: usize, size: usize) -> (r: usize)
    requires
        1 <= width,
        size == width * width,
        idx < size,
    ensures
        r < size,
        r as int == spec_next_index(*direction, idx as int, width as int, size as int),
{
    let row = idx / width;
    let col = idx % width;
    proof {
        lemma_fundamental_div_mod(idx as int, width as int);
        lemma_mod_bound(idx as int, width as int);
        assert(row < width) by (nonlinear_arith)
            requires
                width * (idx as int / width as int) + (idx as int % width as int) == idx,
                0 <= idx as int % width as int,
                idx < width * width,
                0 < width,
                row == idx as int / width as int,
        ;
        assert(width <= size) by (nonlinear_arith)
            requires
                size == width * width,
                1 <= width,
        ;
    }
    match direction {
        Direction::Up => {
            if idx >= width {
                proof {
                    lemma_small_mod((idx - width) as nat, size as nat);
                }
                idx - width
            } else {
                proof {
                    lemma_mod_multiples_vanish(1, idx as int - width as int, size as int);
                    lemma_small_mod((size - width + idx) as nat, size as nat);
                }
                size - width + idx
            }
        },
        Direction::Right => {
            if col == width - 1 {
                proof {
                    lemma_mod_multiples_vanish(row as int, col as int + 1, width as int);
                    lemma_mod_multiples_vanish(1, 0, width as int);
                    lemma_small_mod(0, width as nat);
                }
                idx - col
            } else {
                proof {
                    lemma_mod_multiples_vanish(row as int, col as int + 1, width as int);
                    lemma_small_mod((col + 1) as nat, width as nat);
                    assert(idx + 1 < size) by (nonlinear_arith)
                        requires
                            idx == width * row + col,
                            col < width - 1,
                            row < width,
                            size == width * width,
                            0 < width,
                    ;
                }
                idx + 1
            }
        },
        Direction::Down => {
            if idx < size - width {
                proof {
                    lemma_small_mod((idx + width) as nat, size as nat);
                }
                idx + width
            } else {
                proof {
                    lemma_mod_multiples_vanish(1, idx as int + width - size, size as int);
                    lemma_small_mod((idx + width - size) as nat, size as nat);
                }
                idx - (size - width)
            }
        },
        Direction::Left => {
            if col == 0 {
                proof {
                    assert(width as int * (row as int - 1) == width as int * row as int
                        - width as int) by (nonlinear_arith);
                    lemma_mod_multiples_vanish(
                        row as int - 1,
                        width as int - 1,
                        width as int,
                    );
                    lemma_small_mod((width - 1) as nat, width as nat);
                    assert(idx + width - 1 < size) by (nonlinear_arith)
                        requires
                            idx == width * row + col,
                            col == 0,
                            row < width,
                            size == width * width,
                            0 < width,
                    ;
                }
                idx + (width - 1)
            } else {
                proof {
                    lemma_mod_multiples_vanish(row as int, col as int - 1, width as int);
                    lemma_small_mod((col - 1) as nat, width as nat);
                }
                idx - 1
            }
        },
    }
}

/// Torus round trip: one move in any direction followed by one move in the
/// geometrically inverse direction returns to the starting index.  This
/// holds for every direction and every starting cell; the asymmetry between
/// row wrapping and whole-grid wrapping never breaks it, because a
/// horizontal move keeps the row and a vertical move keeps the column.
pub proof fn lemma_next_cell_round_trip(direction: Direction, idx: int, width: int, size: int)
    requires
        1 <= width,
        size == width * width,
        0 <= idx < size,
    ensures
        spec_next_index(
            opposite(direction),
            spec_next_index(direction, idx, width, size),
            width,
            size,
        ) == idx,
{
    let row = idx / width;
    let col = idx % width;
    lemma_fundamental_div_mod(idx, width);
    lemma_mod_bound(idx, width);
    assert(row < width) by (nonlinear_arith)
        requires
            width * (idx / width) + (idx % width) == idx,
            0 <= idx % width,
            idx < width * width,
            0 < width,
            row == idx / width,
    ;
    assert(0 <= row) by (nonlinear_arith)
        requires
            width * (idx / width) + (idx % width) == idx,
            0 <= idx,
            idx % width < width,
            0 < width,
            row == idx / width,
    ;
    assert(width <= size) by (nonlinear_arith)
        requires
            size == width * width,
            1 <= width,
    ;
    match direction {
        Direction::Up => {
            let n = (idx - width) % size;
            lemma_mod_bound(idx - width, size);
            lemma_add_mod_noop_right(width, idx - width, size);
            lemma_small_mod(idx as nat, size as nat);
            assert((n + width) % size == idx);
        },
        Direction::Down => {
            let n = (idx + width) % size;
            lemma_mod_bound(idx + width, size);
            lemma_add_mod_noop_right(-width, idx + width, size);
            lemma_small_mod(idx as nat, size as nat);
            assert((n - width) % size == idx);
        },
        Direction::Right => {
            let c2 = (idx + 1) % width;
            lemma_mod_multiples_vanish(row, col + 1, width);
            let n = row * width + c2;
            lemma_mod_bound(idx + 1, width);
            lemma_fundamental_div_mod_converse_div(n, width, row, c2);
            lemma_fundamental_div_mod_converse_mod(n, width, row, c2);
            if col == width - 1 {
                lemma_mod_multiples_vanish(1, 0, width);
                lemma_small_mod(0, width as nat);
                assert(c2 == 0);
                assert(width * (row - 1) == width * row - width) by (nonlinear_arith);
                lemma_mod_multiples_vanish(row - 1, width - 1, width);
                lemma_small_mod((width - 1) as nat, width as nat);
                assert((n - 1) % width == width - 1);
            } else {
                lemma_small_mod((col + 1) as nat, width as nat);
                assert(c2 == col + 1);
                lemma_mod_multiples_vanish(row, col, width);
                lemma_small_mod(col as nat, width as nat);
                assert((n - 1) % width == col);
            }
        },
        Direction::Left => {
            let c2 = (idx - 1) % width;
            lemma_mod_multiples_vanish(row, col - 1, width);
            let n = row * width + c2;
            lemma_mod_bound(idx - 1, width);
            lemma_fundamental_div_mod_converse_div(n, width, row, c2);
            lemma_fundamental_div_mod_converse_mod(n, width, row, c2);
            if col == 0 {
                assert(width * (row - 1) == width * row - width) by (nonlinear_arith);
                lemma_mod_multiples_vanish(row - 1, width - 1, width);
                lemma_small_mod((width - 1) as nat, width as nat);
                assert(c2 == width - 1);
                assert(width * (row + 1) == width * row + width) by (nonlinear_arith);
                lemma_mod_multiples_vanish(row + 1, 0, width);
                lemma_small_mod(0, width as nat);
                assert((n + 1) % width == 0);
            } else {
                lemma_small_mod((col - 1) as nat, width as nat);
                assert(c2 == col - 1);
                lemma_mod_multiples_vanish(row, col, width);
                lemma_small_mod(col as nat, width as nat);
                assert((n + 1) % width == col);
            }
        },
    }
}

} // verus!
