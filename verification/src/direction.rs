//! Headings and the keys that ask for them.

use vstd::prelude::*;
use crate::grid::{GRID_COLUMNS, GRID_ROWS};

verus! {

/// One of the four directions in which the head can face.
#[derive(Clone, Copy, PartialEq, Eq, Debug, Structural)]
pub enum Direction {
    Up,
    Down,
    Left,
    Right,
}

/// A pressed key, as far as the game tells keys apart: the four arrows, the
/// four letters that stand for them, and everything else.
#[derive(Clone, Copy, PartialEq, Eq, Debug, Structural)]
pub enum Key {
    ArrowUp,
    ArrowDown,
    ArrowLeft,
    ArrowRight,
    KeyW,
    KeyA,
    KeyS,
    KeyD,
    Other,
}

impl Direction {
    /// The heading that points the other way.
    pub open spec fn opposite(self) -> Direction {
        match self {
            Direction::Up => Direction::Down,
            Direction::Down => Direction::Up,
            Direction::Left => Direction::Right,
            Direction::Right => Direction::Left,
        }
    }

    /// The number of cells on the axis along which this heading moves.
    pub open spec fn cells_ahead(self) -> nat {
        match self {
            Direction::Up | Direction::Down => GRID_ROWS as nat,
            Direction::Left | Direction::Right => GRID_COLUMNS as nat,
        }
    }

    /// The heading that a key asks for, if it asks for one.
    pub open spec fn of_key(key: Key) -> Option<Direction> {
        match key {
            Key::ArrowUp | Key::KeyW => Some(Direction::Up),
            Key::ArrowDown | Key::KeyS => Some(Direction::Down),
            Key::ArrowLeft | Key::KeyA => Some(Direction::Left),
            Key::ArrowRight | Key::KeyD => Some(Direction::Right),
            Key::Other => None,
        }
    }

    /// Maps a key to the heading it asks for; a key that asks for none is an
    /// error.
    pub fn try_from(key: &Key) -> (r: Result<Direction, ()>)
        ensures
            r == match Direction::of_key(*key) {
                Some(d) => Ok::<Direction, ()>(d),
                None => Err::<Direction, ()>(()),
            },
    {
        match key {
            Key::ArrowUp | Key::KeyW => Ok(Direction::Up),
            Key::ArrowDown | Key::KeyS => Ok(Direction::Down),
            Key::ArrowLeft | Key::KeyA => Ok(Direction::Left),
            Key::ArrowRight | Key::KeyD => Ok(Direction::Right),
            _ => Err(()),
        }
    }

    /// Whether `other` is the exact reverse of this heading.
    pub fn is_opposite(&self, other: &Direction) -> (r: bool)
        ensures
            r == (*other == self.opposite()),
    {
        match (self, other) {
            (Direction::Up, Direction::Down) => true,
            (Direction::Down, Direction::Up) => true,
            (Direction::Left, Direction::Right) => true,
            (Direction::Right, Direction::Left) => true,
            _ => false,
        }
    }
}

impl Default for Direction {
    /// The heading at the start of a game.
    fn default() -> (d: Direction)
        ensures
            d == Direction::Up,
    {
        Direction::Up
    }
}

/// Reversal is symmetric, never fixes a heading, and undoes itself.
pub proof fn lemma_opposite_is_involution(a: Direction, b: Direction)
    ensures
        a.opposite() != a,
        a.opposite().opposite() == a,
        (b == a.opposite()) == (a == b.opposite()),
{
}

} // verus!
