use pong_wars::game::{
    Ball, BallNoise, GameState, SquareColor, MAX_SPEED, MIN_SPEED,
};
use pong_wars::physics::{clamp_i64, floor_div_scale, isqrt, reflect_velocity, turn_velocity, HALF_CELL, SCALE};
use rand::rngs::StdRng;
use rand::SeedableRng;

fn quiet_noise(n: usize) -> Vec<BallNoise> {
    (0..n)
        .map(|_| BallNoise { turns: vec![0, 0, 0, 0], jitter_dx: 0, jitter_dy: 0 })
        .collect()
}

fn recount(game: &GameState, color: SquareColor) -> usize {
    game.squares.iter().map(|c| c.iter().filter(|&&s| s == color).count()).sum()
}

#[test]
fn new_game_splits_the_grid_in_two() {
    let game = GameState::new(9, 34, 1, StdRng::seed_from_u64(7));
    assert_eq!(game.width(), 9);
    assert_eq!(game.height(), 34);
    assert_eq!(game.day_score, 153);
    assert_eq!(game.night_score, 153);
    for x in 0..9 {
        for y in 0..34 {
            let expected = if y < 17 { SquareColor::Night } else { SquareColor::Day };
            assert_eq!(game.squares[x][y], expected);
        }
    }
    assert_eq!(recount(&game, SquareColor::Day), game.day_score);
    assert_eq!(recount(&game, SquareColor::Night), game.night_score);
}

#[test]
fn new_game_odd_height_scores_sum_to_cells() {
    let game = GameState::new(5, 7, 2, StdRng::seed_from_u64(1));
    assert_eq!(game.day_score, 20);
    assert_eq!(game.night_score, 15);
    assert_eq!(game.day_score + game.night_score, 35);
    assert_eq!(recount(&game, SquareColor::Day), 20);
}

#[test]
fn new_game_places_particles_symmetrically() {
    let game = GameState::new(9, 34, 1, StdRng::seed_from_u64(3));
    assert_eq!(game.balls.len(), 2);
    let d = game.balls[0];
    let n = game.balls[1];
    assert_eq!(d.color_type, SquareColor::Day);
    assert_eq!(n.color_type, SquareColor::Night);
    assert_eq!((d.x, d.y), (45000, 255000));
    assert_eq!((n.x, n.y), (45000, 85000));
    for b in [d, n] {
        assert!(b.dx.abs() <= MAX_SPEED && b.dy.abs() <= MAX_SPEED);
        let speed2 = b.dx * b.dx + b.dy * b.dy;
        assert!(speed2 > 2900 * 2900 && speed2 < 3100 * 3100);
    }
    assert!(d.dx > 0 || d.dy < 0);
}

#[test]
fn new_game_several_particles_per_team() {
    let game = GameState::new(18, 34, 3, StdRng::seed_from_u64(11));
    assert_eq!(game.balls.len(), 6);
    let xs: Vec<i64> = game.balls.iter().step_by(2).map(|b| b.x).collect();
    assert_eq!(xs, vec![45000, 90000, 135000]);
    for i in 0..3 {
        let d = game.balls[2 * i];
        let n = game.balls[2 * i + 1];
        assert_eq!(n.x, 180000 - d.x);
        assert_eq!(n.y, 340000 - d.y);
    }
}

#[test]
fn quiet_tick_moves_particle_without_events() {
    let mut game = GameState::new(9, 34, 1, StdRng::seed_from_u64(0));
    game.balls[0] = Ball { x: 45000, y: 85000, dx: 3000, dy: -3000, color_type: SquareColor::Night };
    game.balls[1] = Ball { x: 45000, y: 255000, dx: 3000, dy: 3000, color_type: SquareColor::Day };
    let before = game.squares.clone();
    game.advance(&quiet_noise(2));
    let a = game.balls[0];
    assert_eq!((a.x, a.y), (48000, 82000));
    assert_eq!((a.dx, a.dy), (3000, -3000));
    assert_eq!(game.day_score, 153);
    assert_eq!(game.night_score, 153);
    assert_eq!(game.squares, before);
}

#[test]
fn wall_reflection_reverses_velocity() {
    let mut game = GameState::new(9, 34, 1, StdRng::seed_from_u64(0));
    game.balls[0] = Ball { x: 84000, y: 45000, dx: 3000, dy: -2500, color_type: SquareColor::Night };
    game.balls[1] = Ball { x: 45000, y: 255000, dx: 3000, dy: 3000, color_type: SquareColor::Day };
    game.advance(&quiet_noise(2));
    let a = game.balls[0];
    assert_eq!((a.dx, a.dy), (-3000, -2500));
    assert_eq!((a.x, a.y), (81000, 42500));
}

#[test]
fn position_is_held_on_the_field() {
    let mut game = GameState::new(1, 1, 1, StdRng::seed_from_u64(0));
    game.balls[0] = Ball { x: 5000, y: 5000, dx: 4000, dy: -4000, color_type: SquareColor::Day };
    game.balls[1] = Ball { x: 5000, y: 5000, dx: -4000, dy: 4000, color_type: SquareColor::Night };
    game.advance(&quiet_noise(2));
    for b in &game.balls {
        assert_eq!((b.x, b.y), (HALF_CELL, HALF_CELL));
    }
}

#[test]
fn capture_flips_cells_and_moves_scores() {
    let mut game = GameState::new(9, 34, 1, StdRng::seed_from_u64(0));
    // A Day particle deep in Night territory, between cells.
    game.balls[0] = Ball { x: 42000, y: 82000, dx: 3000, dy: 3000, color_type: SquareColor::Day };
    game.balls[1] = Ball { x: 45000, y: 35000, dx: 3000, dy: 3000, color_type: SquareColor::Night };
    game.advance(&quiet_noise(2));
    assert_eq!(game.squares[4][8], SquareColor::Day);
    assert_eq!(game.squares[3][8], SquareColor::Day);
    assert_eq!(game.squares[4][7], SquareColor::Day);
    assert_eq!(game.squares[5][8], SquareColor::Night);
    // Cell (4, 8) is probed twice against the grid of the tick's start, and
    // both captures count.
    assert_eq!(game.day_score, 157);
    assert_eq!(game.night_score, 149);
    assert_eq!(recount(&game, SquareColor::Day), 156);
}

#[test]
fn single_captures_keep_scores_equal_to_counts() {
    let mut game = GameState::new(9, 34, 1, StdRng::seed_from_u64(0));
    for x in 0..9 {
        for y in 0..34 {
            game.squares[x][y] = SquareColor::Day;
        }
    }
    // The Day particle probes (5, 8), its own cell (4, 8) twice, and (4, 9).
    game.balls[0] = Ball { x: 46000, y: 85000, dx: 0, dy: 0, color_type: SquareColor::Day };
    game.squares[5][8] = SquareColor::Night;
    // The Night particle probes (5, 25), its own cell (4, 25) twice, and (4, 26).
    game.balls[1] = Ball { x: 46000, y: 255000, dx: 0, dy: 0, color_type: SquareColor::Night };
    game.squares[4][25] = SquareColor::Night;
    game.squares[4][26] = SquareColor::Night;
    game.day_score = 9 * 34 - 3;
    game.night_score = 3;
    game.advance(&quiet_noise(2));
    assert_eq!(game.squares[5][8], SquareColor::Day);
    assert_eq!(game.squares[5][25], SquareColor::Night);
    assert_eq!(game.day_score, 9 * 34 - 3);
    assert_eq!(game.day_score, recount(&game, SquareColor::Day));
    assert_eq!(game.night_score, recount(&game, SquareColor::Night));
    assert_eq!(game.day_score + game.night_score, 9 * 34);
}

#[test]
fn capture_reflects_and_turns_velocity() {
    let mut game = GameState::new(9, 34, 1, StdRng::seed_from_u64(0));
    for x in 0..9 {
        for y in 0..34 {
            game.squares[x][y] = SquareColor::Day;
        }
    }
    game.squares[5][8] = SquareColor::Night;
    game.day_score = 9 * 34 - 1;
    game.night_score = 1;
    game.balls[0] = Ball { x: 45000, y: 85000, dx: 3000, dy: -3000, color_type: SquareColor::Day };
    game.balls[1] = Ball { x: 45000, y: 255000, dx: 3000, dy: 3000, color_type: SquareColor::Day };
    let mut noise = quiet_noise(2);
    noise[0].turns[0] = 998;
    game.advance(&noise);
    let a = game.balls[0];
    // Reflected off the normal (-1, 0) to (-3000, -3000), then turned.
    assert_eq!((a.dx, a.dy), turn_velocity(-3000, -3000, 998));
    assert_eq!(a.x, 45000 + a.dx);
    assert_eq!(game.night_score, 0);
    assert_eq!(game.day_score, 9 * 34);
}

#[test]
fn speed_is_held_within_bounds() {
    let mut game = GameState::new(9, 34, 1, StdRng::seed_from_u64(0));
    game.balls[0] = Ball { x: 45000, y: 85000, dx: 100, dy: -4995, color_type: SquareColor::Night };
    game.balls[1] = Ball { x: 45000, y: 255000, dx: -100, dy: 0, color_type: SquareColor::Day };
    let mut noise = quiet_noise(2);
    noise[0].jitter_dy = -10;
    game.advance(&noise);
    assert_eq!((game.balls[0].dx, game.balls[0].dy), (MIN_SPEED, -MAX_SPEED));
    assert_eq!((game.balls[1].dx, game.balls[1].dy), (-MIN_SPEED, -MIN_SPEED));
}

#[test]
fn random_ticks_keep_particles_on_field_and_in_speed_range() {
    for seed in 0..4u64 {
        let mut game = GameState::new(18, 34, 3, StdRng::seed_from_u64(seed));
        for _ in 0..400 {
            game.update();
            for b in &game.balls {
                assert!(b.x >= HALF_CELL && b.x <= 18 * SCALE - HALF_CELL);
                assert!(b.y >= HALF_CELL && b.y <= 34 * SCALE - HALF_CELL);
                assert!(b.dx.abs() >= MIN_SPEED && b.dx.abs() <= MAX_SPEED);
                assert!(b.dy.abs() >= MIN_SPEED && b.dy.abs() <= MAX_SPEED);
            }
        }
        assert_eq!(recount(&game, SquareColor::Day) + recount(&game, SquareColor::Night), 18 * 34);
    }
}

#[test]
fn reflection_keeps_magnitude() {
    for &(dx, dy) in &[(3000i64, -1200i64), (-4500, 2500), (0, 5000)] {
        for &(nx, ny) in &[(1i64, 0i64), (-1, 0), (0, 1), (0, -1)] {
            let (rx, ry) = reflect_velocity(dx, dy, nx, ny);
            assert_eq!(rx * rx + ry * ry, dx * dx + dy * dy);
        }
    }
    assert_eq!(reflect_velocity(3000, -1200, -1, 0), (-3000, -1200));
    assert_eq!(reflect_velocity(3000, -1200, 0, 1), (3000, 1200));
}

#[test]
fn turn_rotates_by_small_angle() {
    assert_eq!(turn_velocity(3000, -3000, 998), (3284, -2686));
    assert_eq!(turn_velocity(-4000, 1500, -500), (-3920, 1698));
    assert_eq!(turn_velocity(-4000, 1500, 0), (-4000, 1500));
}

#[test]
fn fixed_point_helpers() {
    assert_eq!(isqrt(0), 0);
    assert_eq!(isqrt(99_999_999), 9999);
    assert_eq!(isqrt(100_000_000), 10000);
    assert_eq!(isqrt(u64::MAX), 4_294_967_295);
    assert_eq!(floor_div_scale(25000), 2);
    assert_eq!(floor_div_scale(-1), -1);
    assert_eq!(floor_div_scale(-10000), -1);
    assert_eq!(floor_div_scale(-10001), -2);
    assert_eq!(clamp_i64(7, 0, 5), 5);
    assert_eq!(clamp_i64(-7, 0, 5), 0);
    assert_eq!(clamp_i64(3, 0, 5), 3);
}
