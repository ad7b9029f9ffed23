//! The whole game: head, body and orb, the movement tick with the collision
//! check that follows it, and the input pass.

use vstd::prelude::*;
use crate::direction::{Direction, Key};
use crate::grid::{
    get_random_position, lemma_shifted_on_grid, lemma_spawn_cells_are_the_grid, Position,
};
use crate::snake::{lemma_steering_keeps_place, SnakeHead};

verus! {

/// The state of a game.
#[derive(Clone, Debug)]
pub struct Game {
    /// The head of the snake.
    pub head: SnakeHead,
    /// The body segments, the one next to the head first.
    pub body: Vec<Position>,
    /// Where the orb lies.
    pub orb: Position,
}

/// The state of a game as a mathematical value.
pub struct GameView {
    pub head: SnakeHead,
    pub body: Seq<Position>,
    pub orb: Position,
}

impl View for Game {
    type V = GameView;

    open spec fn view(&self) -> GameView {
        GameView { head: self.head, body: self.body@, orb: self.orb }
    }
}

impl GameView {
    /// The state in which every game starts, but for the place of the orb:
    /// the head in the centre, facing up, and no body yet. Segments come with
    /// consumed orbs only.
    pub open spec fn initial(orb: Position) -> GameView {
        GameView {
            head: SnakeHead {
                position: Position { x: 0, y: 0 },
                direction: Direction::Up,
                crashed: false,
            },
            body: Seq::empty(),
            orb,
        }
    }

    /// Whether head, body and orb all sit on cells of the grid.
    pub open spec fn on_grid(self) -> bool {
        &&& self.head.position.on_grid()
        &&& forall|k: int| 0 <= k < self.body.len() ==> (#[trigger] self.body[k]).on_grid()
        &&& self.orb.on_grid()
    }

    /// The place that a movement step vacates: that of the last segment, or
    /// that of the head when there is no body.
    pub open spec fn trail(self) -> Position {
        if self.body.len() == 0 {
            self.head.position
        } else {
            self.body.last()
        }
    }

    /// The state after a movement step: the head goes one cell further, the
    /// first segment takes the place that the head left, and every other
    /// segment the place that the segment before it left.
    pub open spec fn moved(self) -> GameView {
        GameView {
            head: self.head.stepped(),
            body: Seq::new(
                self.body.len(),
                |k: int|
                    if k == 0 {
                        self.head.position
                    } else {
                        self.body[k - 1]
                    },
            ),
            orb: self.orb,
        }
    }

    /// Whether the head lies on a body segment.
    pub open spec fn hits_body(self) -> bool {
        self.body.contains(self.head.position)
    }

    /// Whether the head lies on the orb.
    pub open spec fn reaches_orb(self) -> bool {
        self.head.position == self.orb
    }

    /// The state after the collision check. A head that lies on a segment
    /// loses the whole body and is marked as crashed for good. A head that
    /// lies on the orb sends the orb to `next_orb` and gains a segment at
    /// `trail`; this happens after a crash too. The head neither moves nor
    /// turns.
    pub open spec fn resolved(self, trail: Position, next_orb: Position) -> GameView {
        let survivors = if self.hits_body() {
            Seq::<Position>::empty()
        } else {
            self.body
        };
        GameView {
            head: SnakeHead { crashed: self.head.crashed || self.hits_body(), ..self.head },
            body: if self.reaches_orb() {
                survivors.push(trail)
            } else {
                survivors
            },
            orb: if self.reaches_orb() {
                next_orb
            } else {
                self.orb
            },
        }
    }

    /// The state after a whole tick: a movement step, then the collision
    /// check on what the step produced, with the place that the step vacated
    /// as the place of a new segment.
    pub open spec fn ticked(self, next_orb: Position) -> GameView {
        self.moved().resolved(self.trail(), next_orb)
    }
}

impl Game {
    /// A game in its starting state with the orb at `orb`.
    pub fn new(orb: Position) -> (game: Game)
        ensures
            game@ == GameView::initial(orb),
            orb.on_grid() ==> game@.on_grid(),
    {
        Game {
            head: SnakeHead {
                position: Position { x: 0, y: 0 },
                direction: Direction::Up,
                crashed: false,
            },
            body: Vec::new(),
            orb,
        }
    }

    /// A game in its starting state with the orb on a cell picked at random.
    pub fn setup() -> (game: Game)
        ensures
            game@ == GameView::initial(game.orb),
            game.orb.is_spawn_cell(),
            game@.on_grid(),
    {
        let orb = get_random_position();
        proof {
            lemma_spawn_cells_are_the_grid(orb);
        }
        Game::new(orb)
    }

    /// Appends a segment at `translation` to the body.
    pub fn spawn_snake_body(&mut self, translation: Position)
        ensures
            final(self)@ == (GameView { body: old(self)@.body.push(translation), ..old(self)@ }),
    {
        self.body.push(translation);
    }

    /// Moves the snake by one cell: the head steps, and the place it left is
    /// handed down the body, each segment giving up its own place for the one
    /// it receives. Returns the place that nothing occupies any longer.
    pub fn move_snake(&mut self) -> (trail: Position)
        ensures
            final(self)@ == old(self)@.moved(),
            trail == old(self)@.trail(),
    {
        let mut last_translation = self.head.clone_translation();
        self.head.step();
        let n = self.body.len();
        let mut i: usize = 0;
        while i < n
            invariant
                i <= n,
                n == self.body@.len(),
                n == old(self).body@.len(),
                self.head == old(self).head.stepped(),
                self.orb == old(self).orb,
                last_translation == (if i == 0 {
                    old(self).head.position
                } else {
                    old(self).body@[i - 1]
                }),
                forall|k: int| 0 <= k < i ==> self.body@[k] == old(self)@.moved().body[k],
                forall|k: int| i <= k < n ==> self.body@[k] == old(self).body@[k],
            decreases n - i,
        {
            std::mem::swap(&mut self.body[i], &mut last_translation);
            i += 1;
        }
        assert(self.body@ =~= old(self)@.moved().body);
        last_translation
    }

    /// Whether the head lies on a body segment.
    pub fn hits_body(&self) -> (hit: bool)
        ensures
            hit == self@.hits_body(),
    {
        let mut crashed = false;
        let mut i: usize = 0;
        while i < self.body.len()
            invariant
                i <= self.body@.len(),
                crashed == exists|k: int| 0 <= k < i && self.body@[k] == self.head.position,
            decreases self.body@.len() - i,
        {
            if self.head.position == self.body[i] {
                crashed = true;
            }
            i += 1;
        }
        crashed
    }

    /// Runs the collision check with `next_orb` as the place to which a
    /// consumed orb goes. `trail` is the place that the movement step of this
    /// tick vacated.
    pub fn resolve_collisions(&mut self, trail: Position, next_orb: Position)
        ensures
            final(self)@ == old(self)@.resolved(trail, next_orb),
    {
        let reached = self.head.position == self.orb;
        if self.hits_body() {
            self.body.clear();
            self.head.crashed = true;
        }
        if reached {
            self.orb = next_orb;
            self.spawn_snake_body(trail);
        }
    }

    /// Runs the collision check. A consumed orb goes to a cell picked at
    /// random; otherwise the orb stays and nothing is drawn.
    pub fn check_collisions(&mut self, trail: Position)
        ensures
            final(self)@ == old(self)@.resolved(trail, final(self).orb),
            old(self)@.reaches_orb() ==> final(self).orb.is_spawn_cell(),
    {
        let next_orb = if self.head.position == self.orb {
            get_random_position()
        } else {
            self.orb
        };
        self.resolve_collisions(trail, next_orb);
    }

    /// Advances the game by one tick: the snake moves, then collisions are
    /// checked.
    pub fn tick(&mut self)
        ensures
            final(self)@ == old(self)@.ticked(final(self).orb),
            old(self)@.moved().reaches_orb() ==> final(self).orb.is_spawn_cell(),
            old(self)@.on_grid() ==> final(self)@.on_grid(),
    {
        let trail = self.move_snake();
        self.check_collisions(trail);
        proof {
            if old(self)@.on_grid() {
                if old(self)@.moved().reaches_orb() {
                    lemma_spawn_cells_are_the_grid(self.orb);
                }
                lemma_tick_stays_on_grid(old(self)@, self.orb);
            }
        }
    }

    /// Applies the keys that are pressed during one input pass, in the order
    /// given. Keys that ask for no heading are skipped; of the others, each is
    /// a turn request of its own.
    pub fn handle_input(&mut self, keys: &Vec<Key>)
        ensures
            final(self)@ == (GameView { head: old(self).head.steered(keys@), ..old(self)@ }),
            old(self)@.on_grid() ==> final(self)@.on_grid(),
    {
        let mut i: usize = 0;
        while i < keys.len()
            invariant
                i <= keys@.len(),
                self.head == old(self).head.steered(keys@.take(i as int)),
                self.body@ == old(self).body@,
                self.orb == old(self).orb,
            decreases keys@.len() - i,
        {
            if let Ok(direction) = Direction::try_from(&keys[i]) {
                self.head.turn(direction);
            }
            proof {
                assert(keys@.take(i + 1).drop_last() == keys@.take(i as int));
                assert(keys@.take(i + 1).last() == keys@[i as int]);
            }
            i += 1;
        }
        proof {
            assert(keys@.take(keys@.len() as int) == keys@);
            lemma_steering_keeps_place(old(self).head, keys@);
        }
    }
}

/// Trailing: a movement step keeps the number of segments; the first segment
/// ends where the head was, and every later segment where the segment before
/// it was.
pub proof fn lemma_body_trails_head(game: GameView)
    ensures
        game.moved().body.len() == game.body.len(),
        game.body.len() >= 1 ==> game.moved().body[0] == game.head.position,
        forall|k: int|
            1 <= k < game.body.len() ==> #[trigger] game.moved().body[k] == game.body[k - 1],
        game.moved().orb == game.orb,
        game.moved().head == game.head.stepped(),
{
}

/// Growth: a tick in which the head reaches the orb without running into the
/// body adds exactly one segment at the end. The new segment lies where the
/// last segment was before the tick's movement (where the head was, if there
/// was no body), the other segments are where the movement put them, and the
/// orb is at its new place.
pub proof fn lemma_growth(game: GameView, next_orb: Position)
    requires
        game.moved().reaches_orb(),
        !game.moved().hits_body(),
    ensures
        game.ticked(next_orb).body.len() == game.body.len() + 1,
        game.ticked(next_orb).body.last() == game.trail(),
        game.ticked(next_orb).body.drop_last() == game.moved().body,
        game.ticked(next_orb).orb == next_orb,
        game.ticked(next_orb).head == game.moved().head,
{
    assert(game.ticked(next_orb).body.drop_last() =~= game.moved().body);
}

/// Crash: a tick in which the head runs into a segment, and not into the orb
/// at the same time, leaves no body at all and marks the head as crashed. The
/// head keeps the place and the heading that the movement gave it, and the
/// orb stays.
pub proof fn lemma_crash(game: GameView, next_orb: Position)
    requires
        game.moved().hits_body(),
        !game.moved().reaches_orb(),
    ensures
        game.ticked(next_orb).body.len() == 0,
        game.ticked(next_orb).head.crashed,
        game.ticked(next_orb).head.position == game.moved().head.position,
        game.ticked(next_orb).head.direction == game.moved().head.direction,
        game.ticked(next_orb).orb == game.orb,
{
}

/// Crash on the orb: when the head runs into a segment that lies on the orb,
/// the body is lost first and the orb is consumed after that, so the snake is
/// left with the one new segment.
pub proof fn lemma_crash_on_orb(game: GameView, next_orb: Position)
    requires
        game.moved().hits_body(),
        game.moved().reaches_orb(),
    ensures
        game.ticked(next_orb).body == seq![game.trail()],
        game.ticked(next_orb).head.crashed,
        game.ticked(next_orb).orb == next_orb,
{
    assert(game.ticked(next_orb).body =~= seq![game.trail()]);
}

/// No collision, no change: a collision check on a head that lies neither on
/// a segment nor on the orb leaves the state as it found it, so a tick is
/// then a movement step and nothing else.
pub proof fn lemma_quiet_tick(game: GameView, trail: Position, next_orb: Position)
    ensures
        !game.hits_body() && !game.reaches_orb() ==> game.resolved(trail, next_orb) == game,
        !game.moved().hits_body() && !game.moved().reaches_orb() ==> game.ticked(next_orb)
            == game.moved(),
{
}

/// The crash flag is never cleared, and the collision check neither moves nor
/// turns the head.
pub proof fn lemma_crash_flag_sticks(game: GameView, trail: Position, next_orb: Position)
    ensures
        game.head.crashed ==> game.resolved(trail, next_orb).head.crashed,
        game.resolved(trail, next_orb).head.crashed == (game.head.crashed || game.hits_body()),
        game.resolved(trail, next_orb).head.position == game.head.position,
        game.resolved(trail, next_orb).head.direction == game.head.direction,
{
}

/// A game whose pieces sit on cells keeps them on cells through a tick, as
/// long as a consumed orb goes to a cell.
pub proof fn lemma_tick_stays_on_grid(game: GameView, next_orb: Position)
    requires
        game.on_grid(),
        next_orb.on_grid(),
    ensures
        game.moved().on_grid(),
        game.trail().on_grid(),
        game.ticked(next_orb).on_grid(),
{
    lemma_shifted_on_grid(game.head.position, game.head.direction);
    let moved = game.moved();
    assert forall|k: int| 0 <= k < moved.body.len() implies (#[trigger] moved.body[k]).on_grid() by {
        if k > 0 {
            assert(game.body[k - 1].on_grid());
        }
    }
    if game.body.len() > 0 {
        assert(game.body[game.body.len() - 1].on_grid());
    }
}

/// The starting state sits on cells whenever its orb does.
pub proof fn lemma_initial_on_grid(orb: Position)
    requires
        orb.on_grid(),
    ensures
        GameView::initial(orb).on_grid(),
{
}

} // verus!
