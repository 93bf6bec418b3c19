//! Tests of the grid index model: single moves, edge wrapping, and the
//! torus round trip.

use snake_engine::next_cell;
use snake_engine::Direction;

#[test]
fn moves_in_the_open_field() {
    // width 8, size 64, from cell 10 (row 1, column 2)
    assert_eq!(next_cell(&Direction::Up, 10, 8, 64), 2);
    assert_eq!(next_cell(&Direction::Down, 10, 8, 64), 18);
    assert_eq!(next_cell(&Direction::Right, 10, 8, 64), 11);
    assert_eq!(next_cell(&Direction::Left, 10, 8, 64), 9);
}

#[test]
fn vertical_moves_wrap_over_the_whole_board() {
    // up from the top row lands on the bottom row, same column
    assert_eq!(next_cell(&Direction::Up, 3, 8, 64), 59);
    // down from the bottom row lands on the top row, same column
    assert_eq!(next_cell(&Direction::Down, 59, 8, 64), 3);
    assert_eq!(next_cell(&Direction::Up, 0, 8, 64), 56);
    assert_eq!(next_cell(&Direction::Down, 63, 8, 64), 7);
}

#[test]
fn horizontal_moves_wrap_within_the_row() {
    // right from the right edge lands on the left edge of the same row
    assert_eq!(next_cell(&Direction::Right, 7, 8, 64), 0);
    assert_eq!(next_cell(&Direction::Right, 15, 8, 64), 8);
    assert_eq!(next_cell(&Direction::Right, 63, 8, 64), 56);
    // left from the left edge lands on the right edge of the same row
    assert_eq!(next_cell(&Direction::Left, 0, 8, 64), 7);
    assert_eq!(next_cell(&Direction::Left, 8, 8, 64), 15);
    assert_eq!(next_cell(&Direction::Left, 56, 8, 64), 63);
}

#[test]
fn inverse_direction_returns_to_the_start() {
    let directions = [Direction::Up, Direction::Right, Direction::Down, Direction::Left];
    let inverses = [Direction::Down, Direction::Left, Direction::Up, Direction::Right];
    for idx in 0..64 {
        for k in 0..4 {
            let there = next_cell(&directions[k], idx, 8, 64);
            let back = next_cell(&inverses[k], there, 8, 64);
            assert_eq!(back, idx);
        }
    }
}

#[test]
fn smallest_board_wraps_everywhere() {
    // a 2 x 2 board: every vertical move flips the row, every horizontal
    // move flips the column
    assert_eq!(next_cell(&Direction::Down, 0, 2, 4), 2);
    assert_eq!(next_cell(&Direction::Down, 2, 2, 4), 0);
    assert_eq!(next_cell(&Direction::Right, 0, 2, 4), 1);
    assert_eq!(next_cell(&Direction::Right, 1, 2, 4), 0);
    assert_eq!(next_cell(&Direction::Left, 2, 2, 4), 3);
    assert_eq!(next_cell(&Direction::Up, 1, 2, 4), 3);
}
