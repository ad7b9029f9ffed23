//! The grid: its dimensions, positions on it, and the wrap-around step along
//! one axis.

use vstd::arithmetic::div_mod::{
    lemma_mod_add_multiples_vanish, lemma_mod_sub_multiples_vanish, lemma_small_mod,
};
use vstd::prelude::*;
use crate::direction::Direction;
use crate::random::random_index;

verus! {

/// Side length of one cell, in positional units.
pub const OBJECT_SIZE: i32 = 32;

/// Number of cells along the horizontal axis.
pub const GRID_COLUMNS: i32 = 16;

/// Number of cells along the vertical axis.
pub const GRID_ROWS: i32 = 16;

/// Horizontal extent of the grid, in positional units.
pub const WINDOW_WIDTH: i32 = GRID_COLUMNS * OBJECT_SIZE;

/// Vertical extent of the grid, in positional units.
pub const WINDOW_HEIGHT: i32 = GRID_ROWS * OBJECT_SIZE;

/// Distance that the head covers in one tick: exactly one cell.
pub const SNAKE_SPEED: i32 = OBJECT_SIZE;

/// A point of the playing field, in positional units. The centre of the field
/// is `(0, 0)`; `x` grows to the right and `y` grows upwards.
#[derive(Clone, Copy, PartialEq, Eq, Debug, Structural)]
pub struct Position {
    pub x: i32,
    pub y: i32,
}

impl Position {
    /// The position one cell away in the direction `heading`. Only the
    /// coordinate on the axis of movement changes, by `forward` or `backward`;
    /// neither ever leaves the range of `i32`, whatever the start.
    pub open spec fn shifted(self, heading: Direction) -> Position {
        match heading {
            Direction::Up => Position {
                x: self.x,
                y: forward(self.y as int, WINDOW_HEIGHT as int) as i32,
            },
            Direction::Down => Position {
                x: self.x,
                y: backward(self.y as int, WINDOW_HEIGHT as int) as i32,
            },
            Direction::Left => Position {
                x: backward(self.x as int, WINDOW_WIDTH as int) as i32,
                y: self.y,
            },
            Direction::Right => Position {
                x: forward(self.x as int, WINDOW_WIDTH as int) as i32,
                y: self.y,
            },
        }
    }

    /// The place of the cell in column `column` and row `row`, both counted
    /// from zero at the lower left corner of the grid.
    pub open spec fn at_cell(column: int, row: int) -> Position {
        Position {
            x: ((column - GRID_COLUMNS / 2) * OBJECT_SIZE) as i32,
            y: ((row - GRID_ROWS / 2) * OBJECT_SIZE) as i32,
        }
    }

    /// Whether the position is one of the places where an orb can appear:
    /// the place of a cell whose column and row exist.
    pub open spec fn is_spawn_cell(self) -> bool {
        exists|column: int, row: int|
            0 <= column < GRID_COLUMNS && 0 <= row < GRID_ROWS
                && self == #[trigger] Position::at_cell(column, row)
    }

    /// Whether the position is the place of a cell: both coordinates are
    /// multiples of the cell size, at or above the negative edge of their
    /// axis and below the positive one.
    pub open spec fn on_grid(self) -> bool {
        &&& on_axis(self.x as int, WINDOW_WIDTH as int)
        &&& on_axis(self.y as int, WINDOW_HEIGHT as int)
    }
}

/// The coordinate reached from `c` by one step in the positive direction of
/// an axis of length `extent`: a step that would reach the positive edge or
/// pass it lands one axis length lower, so that the cell after the last one
/// is the first.
pub open spec fn forward(c: int, extent: int) -> int {
    if c + SNAKE_SPEED >= extent / 2 {
        c + SNAKE_SPEED - extent
    } else {
        c + SNAKE_SPEED
    }
}

/// The coordinate reached from `c` by one step in the negative direction of
/// an axis of length `extent`: a step that would pass the negative edge lands
/// one axis length higher.
pub open spec fn backward(c: int, extent: int) -> int {
    if c - SNAKE_SPEED < -(extent / 2) {
        c - SNAKE_SPEED + extent
    } else {
        c - SNAKE_SPEED
    }
}

/// The coordinate on an axis of length `extent` that stands for `c`, for a
/// `c` at most one axis length off the axis on either side.
pub open spec fn wrapped(c: int, extent: int) -> int {
    if c >= extent / 2 {
        c - extent
    } else if c < -(extent / 2) {
        c + extent
    } else {
        c
    }
}

/// Whether `c` is a coordinate of a cell on an axis of length `extent`: a
/// multiple of the cell size, at or above the negative edge and below the
/// positive one.
pub open spec fn on_axis(c: int, extent: int) -> bool {
    &&& -(extent / 2) <= c < extent / 2
    &&& c % (OBJECT_SIZE as int) == 0
}

/// Whether `extent` can be the length of an axis: a whole number of cells, at
/// least one.
pub open spec fn is_extent(extent: int) -> bool {
    extent > 0 && extent % (OBJECT_SIZE as int) == 0
}

/// Steps one cell in the positive direction along an axis, with wrap-around.
pub(crate) fn step_forward(c: i32, extent: i32) -> (r: i32)
    requires
        SNAKE_SPEED <= extent,
    ensures
        r == forward(c as int, extent as int),
{
    let moved: i64 = c as i64 + SNAKE_SPEED as i64;
    if moved >= (extent / 2) as i64 {
        (moved - extent as i64) as i32
    } else {
        moved as i32
    }
}

/// Steps one cell in the negative direction along an axis, with wrap-around.
pub(crate) fn step_backward(c: i32, extent: i32) -> (r: i32)
    requires
        SNAKE_SPEED <= extent,
    ensures
        r == backward(c as int, extent as int),
{
    let moved: i64 = c as i64 - SNAKE_SPEED as i64;
    if moved < -((extent / 2) as i64) {
        (moved + extent as i64) as i32
    } else {
        moved as i32
    }
}

/// The place of the cell in column `column` and row `row`.
pub fn cell_position(column: i32, row: i32) -> (p: Position)
    requires
        0 <= column < GRID_COLUMNS,
        0 <= row < GRID_ROWS,
    ensures
        p == Position::at_cell(column as int, row as int),
{
    Position {
        x: (column - GRID_COLUMNS / 2) * OBJECT_SIZE,
        y: (row - GRID_ROWS / 2) * OBJECT_SIZE,
    }
}

/// Picks the place of a cell at random, the column and the row independently
/// of each other. Nothing keeps the place clear of the snake.
pub fn get_random_position() -> (p: Position)
    ensures
        p.is_spawn_cell(),
{
    let column = random_index(GRID_COLUMNS);
    let row = random_index(GRID_ROWS);
    cell_position(column, row)
}

/// Wrap-around along one axis. A step from a cell coordinate ends on a cell
/// coordinate, at or above the negative edge and below the positive one. A
/// step that stays in that range changes the coordinate by one cell; a step
/// from the last cell at either end lands on the last cell at the other end.
pub proof fn lemma_wrap_around(c: int, extent: int)
    requires
        is_extent(extent),
        on_axis(c, extent),
    ensures
        on_axis(forward(c, extent), extent),
        on_axis(backward(c, extent), extent),
        c + SNAKE_SPEED < extent / 2 ==> forward(c, extent) == c + SNAKE_SPEED,
        c - SNAKE_SPEED >= -(extent / 2) ==> backward(c, extent) == c - SNAKE_SPEED,
        c == extent / 2 - SNAKE_SPEED ==> forward(c, extent) == -(extent / 2),
        c == -(extent / 2) ==> backward(c, extent) == extent / 2 - SNAKE_SPEED,
{
    lemma_aligned_sums(c, SNAKE_SPEED as int);
    lemma_aligned_sums(c + SNAKE_SPEED, extent);
    lemma_aligned_sums(c - SNAKE_SPEED, -extent);
}

/// A step and the step back cancel, across an edge as anywhere else.
pub proof fn lemma_steps_cancel(c: int, extent: int)
    requires
        is_extent(extent),
        on_axis(c, extent),
    ensures
        backward(forward(c, extent), extent) == c,
        forward(backward(c, extent), extent) == c,
{
    lemma_wrap_around(c, extent);
}

/// A step is an addition on the ring of coordinates: shift the axis so that
/// it starts at zero, add or take away one cell, reduce by the axis length,
/// and shift back.
pub proof fn lemma_wrap_is_modular(c: int, extent: int)
    requires
        is_extent(extent),
        on_axis(c, extent),
    ensures
        forward(c, extent) == (c + SNAKE_SPEED + extent / 2) % extent - extent / 2,
        backward(c, extent) == (c - SNAKE_SPEED + extent / 2) % extent - extent / 2,
{
    let up = c + SNAKE_SPEED + extent / 2;
    let down = c - SNAKE_SPEED + extent / 2;
    assert(extent == 2 * (extent / 2));
    if up < extent {
        lemma_small_mod(up as nat, extent as nat);
    } else {
        lemma_small_mod((up - extent) as nat, extent as nat);
        lemma_mod_sub_multiples_vanish(up, extent);
    }
    if down >= 0 {
        lemma_small_mod(down as nat, extent as nat);
    } else {
        lemma_small_mod((down + extent) as nat, extent as nat);
        lemma_mod_add_multiples_vanish(down, extent);
    }
}

/// Sums and differences of multiples of the cell size are multiples of it.
proof fn lemma_aligned_sums(a: int, b: int)
    requires
        a % (OBJECT_SIZE as int) == 0,
        b % (OBJECT_SIZE as int) == 0,
    ensures
        (a + b) % (OBJECT_SIZE as int) == 0,
        (a - b) % (OBJECT_SIZE as int) == 0,
        (-b) % (OBJECT_SIZE as int) == 0,
{
}

/// A step changes the coordinate on the axis of movement to exactly what
/// `forward` or `backward` gives, from any start, and leaves the other
/// coordinate alone.
pub proof fn lemma_shifted_coordinates(p: Position, heading: Direction)
    ensures
        match heading {
            Direction::Up => {
                &&& p.shifted(heading).x == p.x
                &&& p.shifted(heading).y == forward(p.y as int, WINDOW_HEIGHT as int)
            },
            Direction::Down => {
                &&& p.shifted(heading).x == p.x
                &&& p.shifted(heading).y == backward(p.y as int, WINDOW_HEIGHT as int)
            },
            Direction::Left => {
                &&& p.shifted(heading).x == backward(p.x as int, WINDOW_WIDTH as int)
                &&& p.shifted(heading).y == p.y
            },
            Direction::Right => {
                &&& p.shifted(heading).x == forward(p.x as int, WINDOW_WIDTH as int)
                &&& p.shifted(heading).y == p.y
            },
        },
{
}

/// A step from a cell ends on a cell.
pub proof fn lemma_shifted_on_grid(p: Position, heading: Direction)
    requires
        p.on_grid(),
    ensures
        p.shifted(heading).on_grid(),
{
    lemma_shifted_coordinates(p, heading);
    lemma_wrap_around(p.x as int, WINDOW_WIDTH as int);
    lemma_wrap_around(p.y as int, WINDOW_HEIGHT as int);
}

/// The places where an orb can appear are exactly the cells of the grid.
pub proof fn lemma_spawn_cells_are_the_grid(p: Position)
    ensures
        p.is_spawn_cell() == p.on_grid(),
{
    if p.on_grid() {
        let column = p.x / OBJECT_SIZE + GRID_COLUMNS / 2;
        let row = p.y / OBJECT_SIZE + GRID_ROWS / 2;
        assert(p == Position::at_cell(column, row));
    }
}

} // verus!
