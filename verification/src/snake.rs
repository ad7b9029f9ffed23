//! The head of the snake: where it is, where it faces, and how it turns and
//! steps.

use vstd::prelude::*;
use crate::direction::{Direction, Key};
use crate::grid::{
    lemma_shifted_coordinates, lemma_steps_cancel, lemma_wrap_around, step_backward, step_forward,
    wrapped, Position, SNAKE_SPEED, WINDOW_HEIGHT, WINDOW_WIDTH,
};

verus! {

/// The head of the snake.
#[derive(Clone, Copy, PartialEq, Eq, Debug, Structural)]
pub struct SnakeHead {
    /// Where the head is.
    pub position: Position,
    /// Where the head will go on the next tick.
    pub direction: Direction,
    /// Whether the snake has ever run into its own body. The flag only
    /// selects the head's appearance; it is never cleared.
    pub crashed: bool,
}

impl SnakeHead {
    /// The head after a request to face `new_direction`: the request is
    /// dropped when it is the exact reverse of the current heading, and
    /// granted otherwise.
    pub open spec fn turned(self, new_direction: Direction) -> SnakeHead {
        if new_direction == self.direction.opposite() {
            self
        } else {
            SnakeHead { direction: new_direction, ..self }
        }
    }

    /// The head after one pressed key: a key that asks for a heading is a
    /// turn request, any other key changes nothing.
    pub open spec fn pressed(self, key: Key) -> SnakeHead {
        match Direction::of_key(key) {
            Some(d) => self.turned(d),
            None => self,
        }
    }

    /// The head after the pressed keys `keys`, taken in order: each request is
    /// judged against the heading that the requests before it left.
    pub open spec fn steered(self, keys: Seq<Key>) -> SnakeHead
        decreases keys.len(),
    {
        if keys.len() == 0 {
            self
        } else {
            self.steered(keys.drop_last()).pressed(keys.last())
        }
    }

    /// The head after one movement step: one cell further in its heading,
    /// wrapped on the axis it moved along.
    pub open spec fn stepped(self) -> SnakeHead {
        SnakeHead { position: self.position.shifted(self.direction), ..self }
    }

    /// The head after `n` movement steps in a row.
    pub open spec fn stepped_by(self, n: nat) -> SnakeHead
        decreases n,
    {
        if n == 0 {
            self
        } else {
            self.stepped_by((n - 1) as nat).stepped()
        }
    }

    /// Asks the head to face `new_direction`. A request for the exact reverse
    /// of the current heading is silently dropped.
    pub fn turn(&mut self, new_direction: Direction)
        ensures
            *final(self) == old(self).turned(new_direction),
    {
        if !self.direction.is_opposite(&new_direction) {
            self.turn_unchecked(new_direction)
        }
    }

    /// Makes the head face `new_direction`, whatever it faced before.
    pub fn turn_unchecked(&mut self, new_direction: Direction)
        ensures
            *final(self) == (SnakeHead { direction: new_direction, ..*old(self) }),
    {
        self.direction = new_direction;
    }

    /// Moves the head one cell in its heading. The coordinate on the axis of
    /// movement wraps around the grid; the other coordinate, the heading and
    /// the crash flag stay.
    pub fn step(&mut self)
        ensures
            *final(self) == old(self).stepped(),
    {
        match self.direction {
            Direction::Up => {
                self.position.y = step_forward(self.position.y, WINDOW_HEIGHT);
            },
            Direction::Down => {
                self.position.y = step_backward(self.position.y, WINDOW_HEIGHT);
            },
            Direction::Left => {
                self.position.x = step_backward(self.position.x, WINDOW_WIDTH);
            },
            Direction::Right => {
                self.position.x = step_forward(self.position.x, WINDOW_WIDTH);
            },
        }
    }

    /// A copy of the head's position.
    pub fn clone_translation(&self) -> (p: Position)
        ensures
            p == self.position,
    {
        self.position
    }
}

/// Wrap-around: a step from a cell ends on a cell, so that both coordinates
/// stay at or above the negative edge and below the positive edge of their
/// axis. The step changes neither the heading nor the crash flag. From the
/// last cell in its heading the head goes to the first cell at the other end
/// of the axis, with nothing left over.
pub proof fn lemma_step_wraps_around(head: SnakeHead)
    requires
        head.position.on_grid(),
    ensures
        head.stepped().position.on_grid(),
        -(WINDOW_WIDTH / 2) <= head.stepped().position.x < WINDOW_WIDTH / 2,
        -(WINDOW_HEIGHT / 2) <= head.stepped().position.y < WINDOW_HEIGHT / 2,
        head.stepped().direction == head.direction,
        head.stepped().crashed == head.crashed,
        head.direction == Direction::Up && head.position.y == WINDOW_HEIGHT / 2 - SNAKE_SPEED
            ==> head.stepped().position.y == -(WINDOW_HEIGHT / 2),
        head.direction == Direction::Down && head.position.y == -(WINDOW_HEIGHT / 2)
            ==> head.stepped().position.y == WINDOW_HEIGHT / 2 - SNAKE_SPEED,
        head.direction == Direction::Right && head.position.x == WINDOW_WIDTH / 2 - SNAKE_SPEED
            ==> head.stepped().position.x == -(WINDOW_WIDTH / 2),
        head.direction == Direction::Left && head.position.x == -(WINDOW_WIDTH / 2)
            ==> head.stepped().position.x == WINDOW_WIDTH / 2 - SNAKE_SPEED,
{
    lemma_shifted_coordinates(head.position, head.direction);
    lemma_wrap_around(head.position.x as int, WINDOW_WIDTH as int);
    lemma_wrap_around(head.position.y as int, WINDOW_HEIGHT as int);
}

/// A step and the step in the reverse heading cancel: the head is back where
/// it started, across an edge as anywhere else.
pub proof fn lemma_step_back_cancels(head: SnakeHead)
    requires
        head.position.on_grid(),
    ensures
        (SnakeHead { direction: head.direction.opposite(), ..head.stepped() }).stepped().position
            == head.position,
{
    lemma_shifted_coordinates(head.position, head.direction);
    lemma_shifted_coordinates(head.stepped().position, head.direction.opposite());
    lemma_steps_cancel(head.position.x as int, WINDOW_WIDTH as int);
    lemma_steps_cancel(head.position.y as int, WINDOW_HEIGHT as int);
}

/// Each axis is a ring: `n` steps in one heading, for `n` up to the number of
/// cells on the axis of that heading, put the moving coordinate `n` cells
/// further, less one axis length once the edge is crossed. So the head is
/// back at its start after as many steps as the axis has cells, and not
/// before.
pub proof fn lemma_steps_go_round(head: SnakeHead, n: nat)
    requires
        head.position.on_grid(),
        n <= head.direction.cells_ahead(),
    ensures
        head.stepped_by(n).position.on_grid(),
        head.stepped_by(n).direction == head.direction,
        head.stepped_by(n).crashed == head.crashed,
        n == head.direction.cells_ahead() ==> head.stepped_by(n) == head,
        0 < n < head.direction.cells_ahead() ==> head.stepped_by(n).position != head.position,
        match head.direction {
            Direction::Up => {
                &&& head.stepped_by(n).position.x == head.position.x
                &&& head.stepped_by(n).position.y == wrapped(
                    head.position.y + n * SNAKE_SPEED,
                    WINDOW_HEIGHT as int,
                )
            },
            Direction::Down => {
                &&& head.stepped_by(n).position.x == head.position.x
                &&& head.stepped_by(n).position.y == wrapped(
                    head.position.y - n * SNAKE_SPEED,
                    WINDOW_HEIGHT as int,
                )
            },
            Direction::Left => {
                &&& head.stepped_by(n).position.y == head.position.y
                &&& head.stepped_by(n).position.x == wrapped(
                    head.position.x - n * SNAKE_SPEED,
                    WINDOW_WIDTH as int,
                )
            },
            Direction::Right => {
                &&& head.stepped_by(n).position.y == head.position.y
                &&& head.stepped_by(n).position.x == wrapped(
                    head.position.x + n * SNAKE_SPEED,
                    WINDOW_WIDTH as int,
                )
            },
        },
    decreases n,
{
    if n > 0 {
        let before = head.stepped_by((n - 1) as nat);
        lemma_steps_go_round(head, (n - 1) as nat);
        lemma_shifted_coordinates(before.position, before.direction);
        assert(n * SNAKE_SPEED == (n - 1) * SNAKE_SPEED + SNAKE_SPEED) by (nonlinear_arith);
    }
}

/// A turn request for the exact reverse of the current heading changes
/// nothing; any other request, one for the current heading included, sets the
/// heading to what was asked. No single request reverses the heading, and
/// none moves the head.
pub proof fn lemma_turn_rejects_reversal_only(head: SnakeHead, request: Direction)
    ensures
        request == head.direction.opposite() ==> head.turned(request) == head,
        request != head.direction.opposite() ==> head.turned(request).direction == request,
        head.turned(request).direction != head.direction.opposite(),
        head.turned(request).position == head.position,
        head.turned(request).crashed == head.crashed,
{
}

/// Pressed keys only ever change the heading.
pub proof fn lemma_steering_keeps_place(head: SnakeHead, keys: Seq<Key>)
    ensures
        head.steered(keys).position == head.position,
        head.steered(keys).crashed == head.crashed,
    decreases keys.len(),
{
    if keys.len() > 0 {
        lemma_steering_keeps_place(head, keys.drop_last());
    }
}

/// Keys that ask for no heading leave the head as it is.
pub proof fn lemma_unmapped_keys_ignored(head: SnakeHead, keys: Seq<Key>)
    requires
        forall|k: int| 0 <= k < keys.len() ==> Direction::of_key(#[trigger] keys[k]) is None,
    ensures
        head.steered(keys) == head,
    decreases keys.len(),
{
    if keys.len() > 0 {
        lemma_unmapped_keys_ignored(head, keys.drop_last());
    }
}

} // verus!
