use rusty_snake::game::{Game, GameState};
use rusty_snake::geometry::Position;
use rusty_snake::render::{BLACK, GREEN, GRID_SIZE, RED, WHITE};
use rusty_snake::snake::Snake;

fn pos(x: usize, y: usize) -> Position {
    Position { x, y }
}

fn fresh_game() -> Game {
    Game::new(8, 6, 150, 0).expect("valid interval")
}

#[test]
fn snake_defaults_to_grid_centre_facing_right() {
    let s = Snake::new(8, 6);
    assert_eq!(s.head_pos(), pos(4, 3));
    assert_eq!(s.len(), 1);
    assert!(!s.growing_pending());
    assert_eq!(s.grid_width(), 8);
    assert_eq!(s.grid_height(), 6);
}

#[test]
fn food_starts_at_placeholder() {
    let f = rusty_snake::food::Food::new();
    assert_eq!(f.position(), pos(0, 0));
}

#[test]
fn render_paints_border_snake_food_and_background() {
    let g = fresh_game();
    let ww = 8 * GRID_SIZE;
    let wh = 6 * GRID_SIZE;
    let mut buffer: Vec<u32> = vec![0x123456; ww * wh];
    g.render(&mut buffer);

    // A corner pixel and an edge pixel lie on the white wall band.
    assert_eq!(buffer[0], WHITE);
    assert_eq!(buffer[(wh - 1) * ww + (ww - 1)], WHITE);
    assert_eq!(buffer[5 * ww + (ww / 2)], WHITE);

    // The centre of the snake's cell is green.
    let hx = 4 * GRID_SIZE + GRID_SIZE / 2;
    let hy = 3 * GRID_SIZE + GRID_SIZE / 2;
    assert_eq!(buffer[hy * ww + hx], GREEN);

    // The centre of the food cell is red.
    let f = g.food_position();
    let fx = f.x * GRID_SIZE + GRID_SIZE / 2;
    let fy = f.y * GRID_SIZE + GRID_SIZE / 2;
    assert_eq!(buffer[fy * ww + fx], RED);

    // Some interior cell holds neither the snake nor the food: black.
    let mut found_background = false;
    for cx in 1..7 {
        for cy in 1..5 {
            if pos(cx, cy) != pos(4, 3) && pos(cx, cy) != f {
                let px = cx * GRID_SIZE + GRID_SIZE / 2;
                let py = cy * GRID_SIZE + GRID_SIZE / 2;
                assert_eq!(buffer[py * ww + px], BLACK);
                found_background = true;
            }
        }
    }
    assert!(found_background);
}

#[test]
fn render_covers_every_pixel_with_a_layer_colour() {
    let g = fresh_game();
    let ww = 8 * GRID_SIZE;
    let wh = 6 * GRID_SIZE;
    let mut buffer: Vec<u32> = vec![0x123456; ww * wh];
    g.render(&mut buffer);
    assert_eq!(buffer.len(), ww * wh);
    for &p in buffer.iter() {
        assert!(p == WHITE || p == GREEN || p == RED || p == BLACK);
    }
}

#[test]
fn draw_digit_sets_and_skips_dots() {
    let g = fresh_game();
    let ww = 8 * GRID_SIZE;
    let wh = 6 * GRID_SIZE;
    let mut buffer: Vec<u32> = vec![0u32; ww * wh];
    // Digit 3: rows 1111, 0011, 1111, 0011, 1111.
    g.draw_digit(&mut buffer, 3, 40, 40, WHITE);
    // Top-left dot of row 0 is set: a full 2x2 block.
    assert_eq!(buffer[40 * ww + 40], WHITE);
    assert_eq!(buffer[41 * ww + 41], WHITE);
    // Row 1, column 0 is clear.
    assert_eq!(buffer[42 * ww + 40], 0);
    // Row 1, column 3 is set.
    assert_eq!(buffer[42 * ww + 46], WHITE);
    // Pixels outside the glyph box stay untouched.
    assert_eq!(buffer[39 * ww + 40], 0);
    assert_eq!(buffer[40 * ww + 48], 0);
}

#[test]
fn draw_digit_ignores_values_of_ten_or_more() {
    let g = fresh_game();
    let ww = 8 * GRID_SIZE;
    let wh = 6 * GRID_SIZE;
    let mut buffer: Vec<u32> = vec![7u32; ww * wh];
    g.draw_digit(&mut buffer, 10, 40, 40, WHITE);
    assert!(buffer.iter().all(|&p| p == 7));
}

#[test]
fn draw_score_writes_digit_and_label_dots() {
    let g = fresh_game();
    assert_eq!(g.score(), 0);
    let ww = 8 * GRID_SIZE;
    let wh = 6 * GRID_SIZE;
    let mut buffer: Vec<u32> = vec![0u32; ww * wh];
    g.draw_score(&mut buffer);
    // The single digit 0 starts at (10, 10); its top-left dot is set.
    assert_eq!(buffer[10 * ww + 10], WHITE);
    // The colon sits at column 35: dots at (36, 12) and (36, 14).
    assert_eq!(buffer[12 * ww + 36], WHITE);
    assert_eq!(buffer[14 * ww + 36], WHITE);
    // Between the label letters nothing is drawn.
    assert_eq!(buffer[11 * ww + 39], 0);
    // Far away pixels stay untouched.
    assert_eq!(buffer[50 * ww + 50], 0);
}

#[test]
fn snapshot_matches_accessors() {
    let g = fresh_game();
    let snap = g.snapshot();
    assert_eq!(snap.body, g.snake_ref().body());
    assert_eq!(snap.food, g.food_position());
    assert_eq!(snap.score, g.score());
    assert_eq!(snap.state, g.state());
    assert_eq!(snap.state, GameState::Running);
}
