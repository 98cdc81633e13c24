use rusty_snake::game::{ConfigError, Game, GameState};
use rusty_snake::geometry::{Direction, Position};
use rusty_snake::snake::Snake;

fn pos(x: usize, y: usize) -> Position {
    Position { x, y }
}

/// Build a snake on an 8x6 grid facing the given direction, starting from
/// the default rightward facing and turning through allowed quarter turns.
fn snake_facing(d: Direction) -> Snake {
    let mut s = Snake::new(8, 6);
    match d {
        Direction::Right => {}
        Direction::Up => s.change_direction(Direction::Up),
        Direction::Down => s.change_direction(Direction::Down),
        Direction::Left => {
            s.change_direction(Direction::Up);
            s.change_direction(Direction::Left);
        }
    }
    assert_eq!(s.current_direction(), d);
    s
}

fn opposite(d: Direction) -> Direction {
    match d {
        Direction::Up => Direction::Down,
        Direction::Down => Direction::Up,
        Direction::Left => Direction::Right,
        Direction::Right => Direction::Left,
    }
}

const ALL_DIRECTIONS: [Direction; 4] =
    [Direction::Up, Direction::Down, Direction::Left, Direction::Right];

#[test]
fn change_direction_rejects_exact_reversal_only() {
    for &c in ALL_DIRECTIONS.iter() {
        for &d in ALL_DIRECTIONS.iter() {
            let mut s = snake_facing(c);
            s.change_direction(d);
            if d == opposite(c) {
                assert_eq!(s.current_direction(), c);
            } else {
                assert_eq!(s.current_direction(), d);
            }
        }
    }
}

#[test]
fn update_keeps_length_without_growth() {
    let mut s = Snake::init(vec![pos(4, 3), pos(3, 3), pos(2, 3)], 8, 6);
    s.update();
    assert_eq!(s.len(), 3);
    assert!(!s.growing_pending());
    assert_eq!(s.body(), vec![pos(5, 3), pos(4, 3), pos(3, 3)]);
}

#[test]
fn update_grows_by_one_after_grow_and_clears_flag() {
    let mut s = Snake::init(vec![pos(4, 3), pos(3, 3)], 8, 6);
    s.grow();
    assert!(s.growing_pending());
    s.update();
    assert_eq!(s.len(), 3);
    assert!(!s.growing_pending());
    assert_eq!(s.body(), vec![pos(5, 3), pos(4, 3), pos(3, 3)]);
}

#[test]
fn update_clamps_at_grid_edge() {
    let mut s = Snake::init(vec![pos(7, 3)], 8, 6);
    s.update();
    assert_eq!(s.head_pos(), pos(7, 3));
    let mut u = Snake::init(vec![pos(4, 0)], 8, 6);
    u.change_direction(Direction::Up);
    u.update();
    assert_eq!(u.head_pos(), pos(4, 0));
}

#[test]
fn collision_on_each_border_edge() {
    assert!(Snake::init(vec![pos(0, 3)], 8, 6).check_collision());
    assert!(Snake::init(vec![pos(7, 3)], 8, 6).check_collision());
    assert!(Snake::init(vec![pos(4, 0)], 8, 6).check_collision());
    assert!(Snake::init(vec![pos(4, 5)], 8, 6).check_collision());
}

#[test]
fn collision_on_self_overlap() {
    let s = Snake::init(vec![pos(3, 3), pos(2, 3), pos(3, 3)], 8, 6);
    assert!(s.check_collision());
}

#[test]
fn no_collision_in_interior() {
    let s = Snake::init(vec![pos(3, 3), pos(2, 3), pos(2, 2)], 8, 6);
    assert!(!s.check_collision());
}

#[test]
fn single_cell_snake_never_self_collides() {
    for x in 1..7 {
        for y in 1..5 {
            assert!(!Snake::init(vec![pos(x, y)], 8, 6).check_collision());
        }
    }
}

#[test]
fn valid_spawn_positions_exact_small_grid() {
    let s = Snake::init(vec![pos(1, 1)], 4, 4);
    let f = rusty_snake::food::Food::new();
    let v = f.get_valid_spawn_positions(&s);
    assert_eq!(v, vec![pos(1, 2), pos(2, 1), pos(2, 2)]);
}

#[test]
fn spawn_lands_in_free_set_every_time() {
    // Interior of the 5x5 grid is 3x3; the snake covers a column of it.
    let s = Snake::init(vec![pos(2, 1), pos(2, 2), pos(2, 3)], 5, 5);
    let free = [pos(1, 1), pos(1, 2), pos(1, 3), pos(3, 1), pos(3, 2), pos(3, 3)];
    let mut seen = [false; 6];
    for _ in 0..400 {
        let mut f = rusty_snake::food::Food::new();
        assert!(f.spawn(&s));
        let p = f.position();
        let slot = free.iter().position(|q| *q == p);
        assert!(slot.is_some(), "food spawned on an occupied or wall cell");
        seen[slot.unwrap()] = true;
    }
    // Uniform sampling over six cells: 400 draws hit each with overwhelming
    // probability.
    assert!(seen.iter().all(|b| *b));
}

#[test]
fn spawn_hash_matches_spawn_behaviour() {
    let s = Snake::init(vec![pos(1, 1)], 4, 4);
    let mut f = rusty_snake::food::Food::new();
    assert!(f.spawn_hash(&s));
    let p = f.position();
    assert!(p == pos(1, 2) || p == pos(2, 1) || p == pos(2, 2));
}

#[test]
fn spawn_exhaustion_leaves_position_untouched() {
    // The snake fills the whole 2x2 interior of a 4x4 grid.
    let s = Snake::init(vec![pos(1, 1), pos(1, 2), pos(2, 1), pos(2, 2)], 4, 4);
    let mut f = rusty_snake::food::Food::new();
    let before = f.position();
    assert!(!f.spawn(&s));
    assert_eq!(f.position(), before);
    assert!(!f.spawn_hash(&s));
    assert_eq!(f.position(), before);
}

#[test]
fn zero_refresh_interval_is_rejected() {
    match Game::new(10, 8, 0, 0) {
        Err(e) => assert_eq!(e, ConfigError::ZeroRefreshInterval),
        Ok(_) => panic!("a zero refresh interval must be rejected"),
    }
    assert!(Game::new(10, 8, 1, 0).is_ok());
}

/// A fresh 10x8 game whose food avoids the given cells, so a scripted run
/// cannot eat by accident. Spawning is random, so retry.
fn game_with_food_avoiding(avoid: &[Position]) -> Game {
    for _ in 0..10_000 {
        let g = Game::new(10, 8, 150, 0).expect("valid interval");
        if !avoid.contains(&g.food_position()) {
            return g;
        }
    }
    panic!("food kept landing on the scripted path");
}

/// A fresh 10x8 game whose food sits exactly at the given cell. Spawning
/// is random, so retry.
fn game_with_food_at(target: Position) -> Game {
    for _ in 0..100_000 {
        let g = Game::new(10, 8, 150, 0).expect("valid interval");
        if g.food_position() == target {
            return g;
        }
    }
    panic!("food never landed on the target cell");
}

#[test]
fn three_spaced_ticks_move_head_right_without_growth() {
    // Head starts at the centre (5, 4) and walks right: (6,4), (7,4), (8,4).
    let path = [pos(6, 4), pos(7, 4), pos(8, 4)];
    let mut g = game_with_food_avoiding(&path);
    let mut now = 0u64;
    for step in 0..3 {
        now += 150;
        g.update(now);
        let snap = g.snapshot();
        assert_eq!(snap.body, vec![path[step]]);
        assert_eq!(snap.score, 0);
        assert_eq!(snap.state, GameState::Running);
    }
}

#[test]
fn tick_before_interval_does_not_step() {
    let mut g = game_with_food_avoiding(&[pos(6, 4)]);
    g.update(149);
    let snap = g.snapshot();
    assert_eq!(snap.body, vec![pos(5, 4)]);
    assert_eq!(snap.state, GameState::Running);
    assert_eq!(g.last_step_time(), 0);
}

#[test]
fn input_before_interval_is_latched_for_the_next_step() {
    let mut g = game_with_food_avoiding(&[pos(5, 3)]);
    g.handle_input(Some(Direction::Up), false, 10);
    g.update(10);
    // No step happened yet, but the turn is latched.
    assert_eq!(g.snapshot().body, vec![pos(5, 4)]);
    g.update(150);
    assert_eq!(g.snapshot().body, vec![pos(5, 3)]);
}

#[test]
fn eating_food_scores_grows_and_respawns() {
    // Food exactly where the head lands on the first step.
    let mut g = game_with_food_at(pos(6, 4));
    g.update(150);
    let snap = g.snapshot();
    assert_eq!(snap.score, 10);
    assert_eq!(snap.state, GameState::Running);
    assert_eq!(snap.body, vec![pos(6, 4)]);
    // Growth is pending; the next step keeps the tail.
    g.update(300);
    assert_eq!(g.snapshot().body.len(), 2);
    // The respawned food is interior and off the body.
    let f = g.food_position();
    assert!(f.x >= 1 && f.x <= 8 && f.y >= 1 && f.y <= 6);
    assert!(!g.snapshot().body.contains(&f));
}

#[test]
fn hitting_left_border_ends_game_and_freezes_it() {
    // Step up once, then walk left from (5, 3) to the wall at x = 0.
    let path = [pos(5, 3), pos(4, 3), pos(3, 3), pos(2, 3), pos(1, 3), pos(0, 3)];
    let mut g = game_with_food_avoiding(&path);
    let mut now = 0u64;

    g.handle_input(Some(Direction::Up), false, now);
    now += 150;
    g.update(now);
    assert_eq!(g.snapshot().body, vec![pos(5, 3)]);

    g.handle_input(Some(Direction::Left), false, now);
    for step in 1..5 {
        now += 150;
        g.update(now);
        assert_eq!(g.snapshot().body, vec![path[step]]);
        assert_eq!(g.state(), GameState::Running);
    }

    now += 150;
    g.update(now);
    assert_eq!(g.snapshot().body, vec![pos(0, 3)]);
    assert_eq!(g.state(), GameState::GameOver);

    // Long after the interval, a tick in the terminal state changes nothing.
    g.update(now + 10_000);
    assert_eq!(g.snapshot().body, vec![pos(0, 3)]);
    assert_eq!(g.state(), GameState::GameOver);
    assert_eq!(g.last_step_time(), now);

    // Directions are ignored while the game is over.
    g.handle_input(Some(Direction::Down), false, now + 10_000);
    g.update(now + 20_000);
    assert_eq!(g.snapshot().body, vec![pos(0, 3)]);
    assert_eq!(g.state(), GameState::GameOver);
}

#[test]
fn restart_after_game_over_yields_fresh_running_state() {
    let mut g = game_with_food_avoiding(&[]);
    // Drive the head straight into the right wall.
    let mut now = 0u64;
    loop {
        now += 150;
        g.update(now);
        if g.state() != GameState::Running {
            break;
        }
        assert!(now < 150 * 20, "the wall should have ended the game");
    }
    assert_eq!(g.state(), GameState::GameOver);

    // A restart request while the game is over starts a fresh run.
    g.handle_input(None, true, now);
    assert_eq!(g.state(), GameState::Running);
    let snap = g.snapshot();
    assert_eq!(snap.body, vec![pos(5, 4)]);
    assert_eq!(snap.score, 0);
    let f = g.food_position();
    assert!(f.x >= 1 && f.x <= 8 && f.y >= 1 && f.y <= 6);
    assert_ne!(f, pos(5, 4));
    assert_eq!(g.last_step_time(), now);
    assert_eq!(g.refresh_rate(), 150);
}

#[test]
fn restart_request_is_ignored_while_running() {
    let g0 = game_with_food_avoiding(&[]);
    let food_before = g0.food_position();
    let mut g = g0;
    g.handle_input(None, true, 77);
    assert_eq!(g.state(), GameState::Running);
    assert_eq!(g.snapshot().body, vec![pos(5, 4)]);
    assert_eq!(g.food_position(), food_before);
    assert_eq!(g.last_step_time(), 0);
}

#[test]
fn won_when_spawn_is_exhausted_at_construction() {
    // A 3x3 grid has a single interior cell, which the fresh snake covers.
    let g = Game::new(3, 3, 150, 0).expect("valid interval");
    assert_eq!(g.state(), GameState::Won);
    assert_eq!(g.food_position(), pos(0, 0));
}
