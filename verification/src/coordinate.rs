//! The board's geometry: square indices and world positions.
//!
//! Squares are numbered row by row from the bottom-left corner:
//!
//! ```text
//! 8| 56 57 58 59 60 61 62 63
//! 7| 48 49 50 51 52 53 54 55
//! 6| 40 41 42 43 44 45 46 47
//! 5| 32 33 34 35 36 37 38 39
//! 4| 24 25 26 27 28 29 30 31
//! 3| 16 17 18 19 20 21 22 23
//! 2| 8  9  10 11 12 13 14 15
//! 1| 0  1  2  3  4  5  6  7
//! __ a  b  c  d  e  f  g  h
//! ```
//!
//! World positions are whole world units. The board is centred on the world
//! origin, and the position of a square is the point its sprite is anchored
//! at.

use vstd::prelude::*;

verus! {

/// Side length of one square, in world units.
pub const GRID_SCALE: i32 = 50;

/// Half of the board's side length: the board test accepts positions up to
/// this far from the origin on either axis.
pub const BOARD_HALF_SCALE: i32 = 200;

/// Number of squares in a row of the board.
pub const ROW_STRIDE: u8 = 8;

/// A point of the world plane, in whole world units.
#[derive(Debug, Clone, Copy, PartialEq, Eq, Structural)]
pub struct Vec2 {
    pub x: i32,
    pub y: i32,
}

/// The file (column) of a square, counted from 0.
pub open spec fn file_of(index: u8) -> int {
    index as int % 8
}

/// The rank (row) of a square, counted from 0.
pub open spec fn rank_of(index: u8) -> int {
    (index as int - file_of(index)) / 8
}

/// The world coordinate of file or rank number `cell`.
pub open spec fn axis_position(cell: int) -> int {
    cell * GRID_SCALE - BOARD_HALF_SCALE
}

/// The world position of a square.
pub open spec fn square_position(index: u8) -> Vec2 {
    Vec2 { x: axis_position(file_of(index)) as i32, y: axis_position(rank_of(index)) as i32 }
}

/// The file or rank that a world coordinate falls in.
///
/// The coordinate is shifted by half a board and half a square, divided by
/// the square size with the quotient truncated toward zero, and the sign of
/// the quotient is dropped; the result saturates at 255. The magnitude of a
/// truncated quotient is the quotient of the magnitudes, which is what this
/// states. Coordinates left of the first cell are therefore mirrored rather
/// than rejected.
pub open spec fn axis_cell(coordinate: int) -> int {
    let shifted = coordinate + BOARD_HALF_SCALE + GRID_SCALE / 2;
    let cell = (if shifted < 0 { -shifted } else { shifted }) / (GRID_SCALE as int);
    if cell > u8::MAX { u8::MAX as int } else { cell }
}

/// The square index computed for a world position: file plus eight times
/// rank. Off the board this may exceed 63, or even `u8::MAX`.
pub open spec fn square_index(position: Vec2) -> int {
    axis_cell(position.x as int) + axis_cell(position.y as int) * 8
}

/// Whether a position lies outside the board's bounds on either axis.
pub open spec fn outside_board(position: Vec2) -> bool {
    ||| position.x < -BOARD_HALF_SCALE
    ||| position.x > BOARD_HALF_SCALE
    ||| position.y < -BOARD_HALF_SCALE
    ||| position.y > BOARD_HALF_SCALE
}

/// The world position of square `i`.
pub fn vec2_from_index(i: u8) -> (position: Vec2)
    ensures
        position == square_position(i),
        position.x == (i % 8) * 50 - 200,
        position.y == (i / 8) * 50 - 200,
{
    let file: u8 = i % ROW_STRIDE;
    let rank: u8 = (i - file) / ROW_STRIDE;
    Vec2 {
        x: file as i32 * GRID_SCALE - BOARD_HALF_SCALE,
        y: rank as i32 * GRID_SCALE - BOARD_HALF_SCALE,
    }
}

/// The file or rank that a world coordinate falls in; see [`axis_cell`].
pub fn cell_along_axis(coordinate: i32) -> (cell: u8)
    ensures
        cell == axis_cell(coordinate as int),
{
    let shifted: i64 = coordinate as i64 + BOARD_HALF_SCALE as i64 + (GRID_SCALE / 2) as i64;
    let truncated: i64 = shifted / (GRID_SCALE as i64);
    let magnitude: i64 = if truncated < 0 {
        -truncated
    } else {
        truncated
    };
    if magnitude > u8::MAX as i64 {
        u8::MAX
    } else {
        magnitude as u8
    }
}

/// The square index of a world position.
///
/// The sum must fit in a `u8`, which holds of every position that
/// [`is_outside_board`] accepts; [`square_under`] makes that test first.
pub fn index_from_vec2(vec2: Vec2) -> (index: u8)
    requires
        square_index(vec2) <= u8::MAX,
    ensures
        index == square_index(vec2),
{
    let x: u8 = cell_along_axis(vec2.x);
    let y: u8 = cell_along_axis(vec2.y);
    x + y * ROW_STRIDE
}

/// The square index of a world position, or `None` where the sum of file
/// and eight times rank does not fit in a `u8`.
pub fn checked_index_from_vec2(vec2: Vec2) -> (index: Option<u8>)
    ensures
        index == (if square_index(vec2) <= u8::MAX {
            Some(square_index(vec2) as u8)
        } else {
            None
        }),
{
    let x: u8 = cell_along_axis(vec2.x);
    let y: u8 = cell_along_axis(vec2.y);
    if y > (u8::MAX - x) / ROW_STRIDE {
        None
    } else {
        Some(x + y * ROW_STRIDE)
    }
}

/// Whether a position lies outside the board's bounds.
pub fn is_outside_board(vec2: &Vec2) -> (outside: bool)
    ensures
        outside == outside_board(*vec2),
        outside == !(-200 <= vec2.x <= 200 && -200 <= vec2.y <= 200),
{
    vec2.x < -BOARD_HALF_SCALE || vec2.x > BOARD_HALF_SCALE || vec2.y < -BOARD_HALF_SCALE || vec2.y
        > BOARD_HALF_SCALE
}

/// The square under a pointer position, or `None` where the position is
/// outside the board.
pub fn square_under(vec2: &Vec2) -> (clicked: Option<u8>)
    ensures
        clicked == (if outside_board(*vec2) {
            None
        } else {
            Some(square_index(*vec2) as u8)
        }),
        clicked matches Some(index) ==> index == square_index(*vec2) && index <= 72,
{
    if is_outside_board(vec2) {
        None
    } else {
        proof {
            lemma_on_board_cells(*vec2);
        }
        Some(index_from_vec2(*vec2))
    }
}

/// Converting a square to its position and back gives the square again.
pub proof fn lemma_index_round_trip(index: u8)
    ensures
        square_index(square_position(index)) == index,
{
}

/// The position of each of the 64 squares is within the board's bounds.
pub proof fn lemma_squares_on_board(index: u8)
    requires
        index < 64,
    ensures
        !outside_board(square_position(index)),
{
}

/// A position more than four squares from the origin on either axis is
/// outside the board's bounds.
pub proof fn lemma_outside_beyond_four_squares(position: Vec2)
    requires
        position.x < -4 * GRID_SCALE || position.x > 4 * GRID_SCALE || position.y < -4 * GRID_SCALE
            || position.y > 4 * GRID_SCALE,
    ensures
        outside_board(position),
{
}

/// Within the board's bounds each axis yields a cell from 0 to 8, so the
/// square index is at most 72. Cell 8 is reached in the last half square
/// before the upper bound.
pub proof fn lemma_on_board_cells(position: Vec2)
    requires
        !outside_board(position),
    ensures
        0 <= axis_cell(position.x as int) <= 8,
        0 <= axis_cell(position.y as int) <= 8,
        0 <= square_index(position) <= 72,
{
}

/// A coordinate at or right of the first cell's lower edge falls in the
/// cell whose centre is nearest: the cell spans half a square on either side
/// of its position, lower edge included.
pub proof fn lemma_cell_span(coordinate: i32, cell: int)
    requires
        0 <= cell <= u8::MAX,
    ensures
        axis_position(cell) - 25 <= coordinate < axis_position(cell) + 25 ==> axis_cell(
            coordinate as int,
        ) == cell,
{
}

} // verus!
