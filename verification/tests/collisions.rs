use snake::direction::{Direction, Key};
use snake::game::Game;
use snake::grid::Position;
use snake::snake::SnakeHead;

fn at(x: i32, y: i32) -> Position {
    Position { x, y }
}

fn game_of(head: Position, direction: Direction, body: Vec<Position>, orb: Position) -> Game {
    Game { head: SnakeHead { position: head, direction, crashed: false }, body, orb }
}

fn is_cell(p: Position) -> bool {
    -256 <= p.x && p.x < 256 && p.x % 32 == 0 && -256 <= p.y && p.y < 256 && p.y % 32 == 0
}

#[test]
fn hits_body_compares_the_head_with_every_segment() {
    let game = game_of(at(0, 0), Direction::Up, vec![at(0, -32), at(32, -32)], at(96, 96));
    assert!(!game.hits_body());
    let game = game_of(at(0, 0), Direction::Up, vec![at(0, -32), at(0, 0)], at(96, 96));
    assert!(game.hits_body());
    let game = game_of(at(0, 0), Direction::Up, vec![at(0, 0), at(0, -32)], at(96, 96));
    assert!(game.hits_body());
    let game = game_of(at(0, 0), Direction::Up, vec![], at(96, 96));
    assert!(!game.hits_body());
    // The orb is no segment.
    let game = game_of(at(0, 0), Direction::Up, vec![at(0, -32)], at(0, 0));
    assert!(!game.hits_body());
}

#[test]
fn resolve_without_collision_changes_nothing() {
    let mut game =
        game_of(at(0, 32), Direction::Up, vec![at(0, 0), at(0, -32)], at(96, 96));
    game.resolve_collisions(at(0, -64), at(-128, -128));
    assert_eq!(game.head.position, at(0, 32));
    assert_eq!(game.head.direction, Direction::Up);
    assert!(!game.head.crashed);
    assert_eq!(game.body, vec![at(0, 0), at(0, -32)]);
    assert_eq!(game.orb, at(96, 96));
}

#[test]
fn check_without_collision_changes_nothing() {
    let mut game =
        game_of(at(0, 32), Direction::Left, vec![at(0, 0), at(0, -32)], at(96, 96));
    game.check_collisions(at(0, -64));
    assert_eq!(game.head.position, at(0, 32));
    assert_eq!(game.head.direction, Direction::Left);
    assert!(!game.head.crashed);
    assert_eq!(game.body, vec![at(0, 0), at(0, -32)]);
    assert_eq!(game.orb, at(96, 96));
}

#[test]
fn tick_without_collision_only_moves_the_snake() {
    let mut game =
        game_of(at(0, 0), Direction::Right, vec![at(-32, 0), at(-64, 0)], at(96, 96));
    game.tick();
    assert_eq!(game.head.position, at(32, 0));
    assert_eq!(game.body, vec![at(0, 0), at(-32, 0)]);
    assert_eq!(game.orb, at(96, 96));
    assert!(!game.head.crashed);
}

#[test]
fn resolve_on_the_orb_moves_the_orb_and_adds_a_segment_at_the_trail() {
    let mut game =
        game_of(at(0, 32), Direction::Up, vec![at(0, 0), at(0, -32)], at(0, 32));
    game.resolve_collisions(at(0, -64), at(-128, 160));
    assert_eq!(game.orb, at(-128, 160));
    assert_eq!(game.body, vec![at(0, 0), at(0, -32), at(0, -64)]);
    assert_eq!(game.head.position, at(0, 32));
    assert!(!game.head.crashed);
}

#[test]
fn tick_onto_the_orb_relocates_it_and_grows_the_body_by_one() {
    let mut game = game_of(at(0, 0), Direction::Up, vec![at(0, -32)], at(0, 32));
    game.tick();
    assert_eq!(game.head.position, at(0, 32));
    assert_eq!(game.body, vec![at(0, 0), at(0, -32)]);
    assert!(is_cell(game.orb));
    assert!(!game.head.crashed);
}

#[test]
fn growth_places_the_new_segment_where_the_tail_was_before_the_move() {
    let mut game = game_of(
        at(64, 64),
        Direction::Left,
        vec![at(96, 64), at(96, 96), at(128, 96)],
        at(32, 64),
    );
    game.tick();
    assert_eq!(game.head.position, at(32, 64));
    assert_eq!(game.body, vec![at(64, 64), at(96, 64), at(96, 96), at(128, 96)]);
    assert!(is_cell(game.orb));
}

#[test]
fn growth_without_body_places_the_segment_where_the_head_was() {
    let mut game = game_of(at(-64, 0), Direction::Down, vec![], at(-64, -32));
    game.tick();
    assert_eq!(game.head.position, at(-64, -32));
    assert_eq!(game.body, vec![at(-64, 0)]);
    assert!(is_cell(game.orb));
}

#[test]
fn grown_snake_keeps_trailing_on_the_next_tick() {
    let mut game = game_of(at(0, 0), Direction::Up, vec![at(0, -32)], at(0, 32));
    let trail = game.move_snake();
    game.resolve_collisions(trail, at(-160, -160));
    assert_eq!(game.body, vec![at(0, 0), at(0, -32)]);
    game.tick();
    assert_eq!(game.head.position, at(0, 64));
    assert_eq!(game.body, vec![at(0, 32), at(0, 0)]);
    assert_eq!(game.orb, at(-160, -160));
    assert!(!game.head.crashed);
}

#[test]
fn crash_removes_the_whole_body_and_marks_the_head() {
    let mut game = game_of(
        at(0, 32),
        Direction::Up,
        vec![at(0, 0), at(32, 0), at(32, 32), at(0, 32), at(-32, 32)],
        at(96, 96),
    );
    game.resolve_collisions(at(-64, 32), at(-128, -128));
    assert!(game.body.is_empty());
    assert!(game.head.crashed);
    assert_eq!(game.head.position, at(0, 32));
    assert_eq!(game.head.direction, Direction::Up);
    assert_eq!(game.orb, at(96, 96));
}

#[test]
fn tick_into_the_body_crashes() {
    // The snake is curled up so that the cell above the head is taken by a
    // segment that the move does not clear.
    let mut game = game_of(
        at(0, 0),
        Direction::Up,
        vec![at(32, 0), at(32, 32), at(0, 32), at(-32, 32), at(-32, 0)],
        at(96, 96),
    );
    game.tick();
    assert_eq!(game.head.position, at(0, 32));
    assert!(game.body.is_empty());
    assert!(game.head.crashed);
    assert_eq!(game.orb, at(96, 96));
}

#[test]
fn tick_into_the_place_that_the_tail_leaves_is_no_crash() {
    let mut game = game_of(
        at(0, 0),
        Direction::Up,
        vec![at(32, 0), at(32, 32), at(0, 32)],
        at(96, 96),
    );
    game.tick();
    assert_eq!(game.head.position, at(0, 32));
    assert_eq!(game.body, vec![at(0, 0), at(32, 0), at(32, 32)]);
    assert!(!game.head.crashed);
}

#[test]
fn head_keeps_moving_after_a_crash_and_stays_marked() {
    let mut game = game_of(
        at(0, 0),
        Direction::Up,
        vec![at(32, 0), at(32, 32), at(0, 32), at(-32, 32), at(-32, 0)],
        at(96, 96),
    );
    game.tick();
    assert!(game.head.crashed);
    game.handle_input(&vec![Key::ArrowLeft]);
    game.tick();
    assert_eq!(game.head.position, at(-32, 32));
    assert_eq!(game.head.direction, Direction::Left);
    assert!(game.body.is_empty());
    assert!(game.head.crashed);
    assert_eq!(game.orb, at(96, 96));
}

#[test]
fn crashed_head_can_grow_a_new_body() {
    let mut game = Game {
        head: SnakeHead { position: at(0, 0), direction: Direction::Right, crashed: true },
        body: vec![],
        orb: at(32, 0),
    };
    game.tick();
    assert_eq!(game.body, vec![at(0, 0)]);
    assert!(game.head.crashed);
    assert!(is_cell(game.orb));
}

#[test]
fn crash_on_the_orb_leaves_the_one_new_segment() {
    let mut game = game_of(
        at(0, 32),
        Direction::Up,
        vec![at(0, 0), at(32, 0), at(32, 32), at(0, 32), at(-32, 32)],
        at(0, 32),
    );
    game.resolve_collisions(at(-64, 32), at(-128, -128));
    assert_eq!(game.body, vec![at(-64, 32)]);
    assert!(game.head.crashed);
    assert_eq!(game.orb, at(-128, -128));
    assert_eq!(game.head.position, at(0, 32));
}

#[test]
fn next_orb_is_unused_when_the_orb_is_not_reached() {
    let mut game = game_of(at(0, 0), Direction::Up, vec![at(0, 0)], at(96, 96));
    game.resolve_collisions(at(5, 5), at(-128, -128));
    assert_eq!(game.orb, at(96, 96));
    assert!(game.body.is_empty());
    assert!(game.head.crashed);
}

#[test]
fn collisions_need_both_coordinates_to_match() {
    let mut game = game_of(
        at(32, 0),
        Direction::Right,
        vec![at(32, 32), at(0, 0), at(-32, 0)],
        at(32, -32),
    );
    game.resolve_collisions(at(-64, 0), at(-128, -128));
    assert_eq!(game.body, vec![at(32, 32), at(0, 0), at(-32, 0)]);
    assert_eq!(game.orb, at(32, -32));
    assert!(!game.head.crashed);
}

#[test]
fn orb_in_the_first_row_is_reached_across_the_top_edge() {
    let mut game = game_of(at(0, 224), Direction::Up, vec![at(0, 192)], at(0, -256));
    game.tick();
    assert_eq!(game.head.position, at(0, -256));
    assert_eq!(game.body, vec![at(0, 224), at(0, 192)]);
    assert!(is_cell(game.orb));
}

#[test]
fn orb_in_the_first_column_is_reached_across_the_right_edge() {
    let mut game = game_of(at(224, 64), Direction::Right, vec![], at(-256, 64));
    game.tick();
    assert_eq!(game.head.position, at(-256, 64));
    assert_eq!(game.body, vec![at(224, 64)]);
    assert!(is_cell(game.orb));
}

#[test]
fn segment_is_hit_across_an_edge() {
    let mut game = game_of(
        at(224, 0),
        Direction::Right,
        vec![at(224, 32), at(-256, 32), at(-256, 0), at(-256, -32)],
        at(96, 96),
    );
    game.tick();
    assert_eq!(game.head.position, at(-256, 0));
    assert!(game.body.is_empty());
    assert!(game.head.crashed);
}

#[test]
fn long_game_stays_on_the_grid() {
    let mut game = Game::setup();
    let turns = [Key::ArrowUp, Key::KeyD, Key::KeyD, Key::ArrowDown, Key::KeyA, Key::Other];
    for round in 0..2000 {
        game.handle_input(&vec![turns[round % turns.len()], turns[(round / 7) % turns.len()]]);
        let before = game.body.len();
        game.tick();
        assert!(is_cell(game.head.position));
        assert!(is_cell(game.orb));
        assert!(game.body.iter().all(|p| is_cell(*p)));
        assert!(game.body.len() <= before + 1);
    }
}

#[test]
fn segment_count_equals_the_orbs_consumed_since_the_start() {
    let mut game = Game::new(at(0, 32));
    assert!(game.body.is_empty());
    for consumed in 1..=6 {
        let trail = game.move_snake();
        game.resolve_collisions(trail, at(0, 32 * (consumed + 1)));
        assert_eq!(game.body.len(), consumed as usize);
        assert_eq!(game.head.position, at(0, 32 * consumed));
        assert!(!game.head.crashed);
    }
    assert_eq!(
        game.body,
        vec![at(0, 160), at(0, 128), at(0, 96), at(0, 64), at(0, 32), at(0, 0)]
    );
    // A tick without an orb leaves the count alone.
    game.orb = at(-96, -96);
    game.tick();
    assert_eq!(game.body.len(), 6);
}
