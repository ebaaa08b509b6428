//! The simulation engine: a grid of cells owned by two teams, and particles
//! that bounce around it and capture the cells of the other team.
//!
//! Positions and velocities are fixed-point integers (see `physics`). A cell
//! `(x, y)` covers the positions `[x, x + 1) x [y, y + 1)` in cell units;
//! rows with a small `y` are the top of the display.
use vstd::prelude::*;
use crate::chance::draw_between;
use crate::physics::{
    clamp, clamp_i64, floor_cells, floor_div_scale, lemma_turn_bound, reflect, reflect_velocity,
    turn, turn_velocity, HALF_CELL, SCALE,
};

verus! {

/// Height of one display module, in cells.
pub const DEFAULT_GRID_HEIGHT: usize = 34;

/// Largest grid width or height the fixed-point arithmetic supports.
pub const MAX_DIMENSION: usize = 65535;

/// Least magnitude of each velocity component after a tick (0.2 cell per tick).
pub const MIN_SPEED: i64 = 2000;

/// Greatest magnitude of each velocity component after a tick (0.5 cell per tick).
pub const MAX_SPEED: i64 = 5000;

/// Bound of the random perturbation added to each velocity component per tick
/// (0.001 cell per tick).
pub const SPEED_RANDOMNESS: i64 = 10;

/// Bound of the sine of the random turn that follows a capture (about 0.1 radian).
pub const TURN_SIN_MAX: i64 = 998;

/// Speed of a particle when the game starts (0.3 cell per tick).
pub const BASE_SPEED: i64 = 3000;

/// Bound of the sine of the random jitter of the initial heading (30 degrees).
pub const HEADING_SIN_MAX: i64 = 5000;

/// Number of cells a particle probes around itself each tick.
pub const PROBE_COUNT: usize = 4;

/// The two teams, and the colour of the cells they own.
#[derive(Clone, Copy, PartialEq, Eq, Debug, Structural)]
pub enum SquareColor {
    Day,
    Night,
}

/// A particle: position and velocity in fixed-point units, and its team.
#[derive(Clone, Copy, Debug)]
pub struct Ball {
    pub x: i64,
    pub y: i64,
    pub dx: i64,
    pub dy: i64,
    pub color_type: SquareColor,
}

impl Ball {
    fn new(x: i64, y: i64, dx: i64, dy: i64, color_type: SquareColor) -> (r: Ball)
        ensures
            r == (Ball { x, y, dx, dy, color_type }),
    {
        Ball { x, y, dx, dy, color_type }
    }
}

/// The random values one particle consumes in one tick: the sine of the turn
/// after each of its four probes, and the perturbation of each velocity
/// component.
pub struct BallNoise {
    pub turns: Vec<i64>,
    pub jitter_dx: i64,
    pub jitter_dy: i64,
}

/// Grid, particles, running scores and the random source of one game.
pub struct GameState {
    pub width: usize,
    pub height: usize,
    /// `squares[x][y]` is the owner of the cell in column `x`, row `y`.
    pub squares: Vec<Vec<SquareColor>>,
    pub balls: Vec<Ball>,
    pub day_score: usize,
    pub night_score: usize,
    pub rng: rand::rngs::StdRng,
}

/// Largest admissible x (with `w` the grid width) or y (with `w` the height).
pub open spec fn field_max(w: int) -> int {
    w * SCALE - HALF_CELL
}

/// The particle lies on the playing field and moves no faster than `MAX_SPEED`
/// along either axis.
pub open spec fn in_field(b: Ball, w: int, h: int) -> bool {
    &&& HALF_CELL <= b.x <= field_max(w)
    &&& HALF_CELL <= b.y <= field_max(h)
    &&& -MAX_SPEED <= b.dx <= MAX_SPEED
    &&& -MAX_SPEED <= b.dy <= MAX_SPEED
}

/// What holds of every particle after a tick: it lies on the field, and each
/// velocity component has a magnitude in `[MIN_SPEED, MAX_SPEED]`.
pub open spec fn is_settled(b: Ball, w: int, h: int) -> bool {
    &&& HALF_CELL <= b.x <= field_max(w)
    &&& HALF_CELL <= b.y <= field_max(h)
    &&& (MIN_SPEED <= b.dx <= MAX_SPEED || -MAX_SPEED <= b.dx <= -MIN_SPEED)
    &&& (MIN_SPEED <= b.dy <= MAX_SPEED || -MAX_SPEED <= b.dy <= -MIN_SPEED)
}

/// The noise is within the bounds that `update` draws it from.
pub open spec fn noise_ok(n: BallNoise) -> bool {
    &&& n.turns@.len() == PROBE_COUNT
    &&& forall|k: int| 0 <= k < PROBE_COUNT ==> -TURN_SIN_MAX <= #[trigger] n.turns@[k] <= TURN_SIN_MAX
    &&& -SPEED_RANDOMNESS <= n.jitter_dx <= SPEED_RANDOMNESS
    &&& -SPEED_RANDOMNESS <= n.jitter_dy <= SPEED_RANDOMNESS
}

/// Offset of probe `k` from the particle: right, left, down, up.
pub open spec fn probe_offset(k: int) -> (int, int) {
    if k == 0 {
        (HALF_CELL as int, 0)
    } else if k == 1 {
        (-HALF_CELL as int, 0)
    } else if k == 2 {
        (0, HALF_CELL as int)
    } else {
        (0, -HALF_CELL as int)
    }
}

/// Normal of the surface a particle bounces off when probe `k` captures a cell:
/// it points back against the probe's offset.
pub open spec fn probe_normal(k: int) -> (int, int) {
    if k == 0 {
        (-1, 0)
    } else if k == 1 {
        (1, 0)
    } else if k == 2 {
        (0, -1)
    } else {
        (0, 1)
    }
}

/// The cell that probe `k` of particle `b` samples.
pub open spec fn probe_cell(b: Ball, k: int) -> (int, int) {
    (floor_cells(b.x + probe_offset(k).0), floor_cells(b.y + probe_offset(k).1))
}

/// Probe `k` of `b` lands on a cell of the grid that the other team owns.
pub open spec fn probe_flips(grid: Seq<Seq<SquareColor>>, w: int, h: int, b: Ball, k: int) -> bool {
    let c = probe_cell(b, k);
    &&& 0 <= c.0 < w
    &&& 0 <= c.1 < h
    &&& grid[c.0][c.1] != b.color_type
}

/// Velocity of `b` after bouncing off the walls it would cross.
pub open spec fn wall_velocity(b: Ball, w: int, h: int) -> (int, int) {
    let v0 = (b.dx as int, b.dy as int);
    let v1 = if b.x + v0.0 >= field_max(w) || b.x + v0.0 < HALF_CELL {
        reflect(v0, (if b.x + v0.0 >= field_max(w) { -1int } else { 1int }, 0int))
    } else {
        v0
    };
    if b.y + v1.1 >= field_max(h) || b.y + v1.1 < HALF_CELL {
        reflect(v1, (0int, if b.y + v1.1 >= field_max(h) { -1int } else { 1int }))
    } else {
        v1
    }
}

/// Velocity of `b` after its first `k` probes: each capture reflects it off the
/// probe's normal, then turns it by the drawn angle.
pub open spec fn probe_velocity(
    grid: Seq<Seq<SquareColor>>,
    w: int,
    h: int,
    b: Ball,
    turns: Seq<i64>,
    k: nat,
) -> (int, int)
    decreases k,
{
    if k == 0 {
        wall_velocity(b, w, h)
    } else {
        let v = probe_velocity(grid, w, h, b, turns, (k - 1) as nat);
        if probe_flips(grid, w, h, b, k - 1) {
            turn(reflect(v, probe_normal(k - 1)), turns[k - 1] as int)
        } else {
            v
        }
    }
}

/// A velocity component clamped to `[-MAX_SPEED, MAX_SPEED]`, then pushed out
/// to `MIN_SPEED` in magnitude, keeping its sign (zero counts as negative).
pub open spec fn settle_speed(d: int) -> int {
    let c = clamp(d, -MAX_SPEED as int, MAX_SPEED as int);
    if -MIN_SPEED < c < MIN_SPEED {
        if c > 0 {
            MIN_SPEED as int
        } else {
            -MIN_SPEED as int
        }
    } else {
        c
    }
}

/// Particle `b` after one tick on `grid`, with the noise `n`.
pub open spec fn stepped_ball(grid: Seq<Seq<SquareColor>>, w: int, h: int, b: Ball, n: BallNoise) -> Ball {
    let v = probe_velocity(grid, w, h, b, n.turns@, PROBE_COUNT as nat);
    Ball {
        x: clamp(b.x + v.0, HALF_CELL as int, field_max(w)) as i64,
        y: clamp(b.y + v.1, HALF_CELL as int, field_max(h)) as i64,
        dx: settle_speed(v.0 + n.jitter_dx) as i64,
        dy: settle_speed(v.1 + n.jitter_dy) as i64,
        color_type: b.color_type,
    }
}

/// Some noise within bounds takes `b` to `r` in one tick on `grid`.
pub open spec fn steps_to(grid: Seq<Seq<SquareColor>>, w: int, h: int, b: Ball, r: Ball) -> bool {
    exists|n: BallNoise| noise_ok(n) && r == #[trigger] stepped_ball(grid, w, h, b, n)
}

/// Probe number `p` of a tick is probe `p % 4` of particle `p / 4`; it
/// captures its cell.
pub open spec fn flip_at(grid: Seq<Seq<SquareColor>>, w: int, h: int, balls: Seq<Ball>, p: int) -> bool {
    probe_flips(grid, w, h, balls[p / 4], p % 4)
}

/// The cell that probe number `p` of a tick samples.
pub open spec fn cell_at(balls: Seq<Ball>, p: int) -> (int, int) {
    probe_cell(balls[p / 4], p % 4)
}

/// `g` with cell `(x, y)` set to `c`.
pub open spec fn set_cell(g: Seq<Seq<SquareColor>>, x: int, y: int, c: SquareColor) -> Seq<Seq<SquareColor>> {
    g.update(x, g[x].update(y, c))
}

/// The grid after the captures of the first `p` probes of a tick. Every probe
/// reads the grid as it stood at the start of the tick.
pub open spec fn flipped_grid(grid: Seq<Seq<SquareColor>>, w: int, h: int, balls: Seq<Ball>, p: nat) -> Seq<Seq<SquareColor>>
    decreases p,
{
    if p == 0 {
        grid
    } else {
        let g = flipped_grid(grid, w, h, balls, (p - 1) as nat);
        if flip_at(grid, w, h, balls, p - 1) {
            let c = cell_at(balls, p - 1);
            set_cell(g, c.0, c.1, balls[(p - 1) / 4].color_type)
        } else {
            g
        }
    }
}

/// Change of the Day score from the captures of the first `p` probes of a
/// tick: +1 for each capture by a Day particle, -1 for each by a Night one.
/// The Night score changes by the opposite amount.
pub open spec fn flip_delta(grid: Seq<Seq<SquareColor>>, w: int, h: int, balls: Seq<Ball>, p: nat) -> int
    decreases p,
{
    if p == 0 {
        0
    } else {
        flip_delta(grid, w, h, balls, (p - 1) as nat) + if flip_at(grid, w, h, balls, p - 1) {
            if balls[(p - 1) / 4].color_type == SquareColor::Day {
                1int
            } else {
                -1int
            }
        } else {
            0int
        }
    }
}

/// A score moved by `d`, held at zero from below (and at `usize::MAX` from
/// above, which a score that counts cells never reaches).
pub open spec fn adjusted(score: int, d: int) -> int {
    if score + d < 0 {
        0
    } else if score + d > usize::MAX {
        usize::MAX as int
    } else {
        score + d
    }
}

/// Applies a list of captures `(x, y, team)` to `g`, in order.
pub open spec fn apply_flips(g: Seq<Seq<SquareColor>>, fl: Seq<(usize, usize, SquareColor)>) -> Seq<Seq<SquareColor>>
    decreases fl.len(),
{
    if fl.len() == 0 {
        g
    } else {
        let e = fl.last();
        set_cell(apply_flips(g, fl.drop_last()), e.0 as int, e.1 as int, e.2)
    }
}

/// Velocity of `b` after bouncing off the walls it would cross.
fn wall_reflect(b: &Ball, w: usize, h: usize) -> (r: (i64, i64))
    requires
        1 <= w <= MAX_DIMENSION,
        1 <= h <= MAX_DIMENSION,
        in_field(*b, w as int, h as int),
    ensures
        (r.0 as int, r.1 as int) == wall_velocity(*b, w as int, h as int),
        -MAX_SPEED <= r.0 <= MAX_SPEED,
        -MAX_SPEED <= r.1 <= MAX_SPEED,
{
    let xmax = (w as i64) * SCALE - HALF_CELL;
    let ymax = (h as i64) * SCALE - HALF_CELL;
    let mut v = (b.dx, b.dy);
    if b.x + v.0 >= xmax || b.x + v.0 < HALF_CELL {
        let nx: i64 = if b.x + v.0 >= xmax { -1 } else { 1 };
        v = reflect_velocity(v.0, v.1, nx, 0);
    }
    if b.y + v.1 >= ymax || b.y + v.1 < HALF_CELL {
        let ny: i64 = if b.y + v.1 >= ymax { -1 } else { 1 };
        v = reflect_velocity(v.0, v.1, 0, ny);
    }
    v
}

/// The cell that probe `k` of `b` samples.
fn probe_cell_of(b: &Ball, k: usize) -> (r: (i64, i64))
    requires
        k < PROBE_COUNT,
        HALF_CELL <= b.x <= MAX_DIMENSION * SCALE,
        HALF_CELL <= b.y <= MAX_DIMENSION * SCALE,
    ensures
        (r.0 as int, r.1 as int) == probe_cell(*b, k as int),
        0 <= r.0,
        0 <= r.1,
{
    let off: (i64, i64) = if k == 0 {
        (HALF_CELL, 0)
    } else if k == 1 {
        (-HALF_CELL, 0)
    } else if k == 2 {
        (0, HALF_CELL)
    } else {
        (0, -HALF_CELL)
    };
    let cx = floor_div_scale(b.x + off.0);
    let cy = floor_div_scale(b.y + off.1);
    assert(0 <= floor_cells(b.x + off.0)) by (nonlinear_arith)
        requires 0 <= b.x + off.0;
    assert(0 <= floor_cells(b.y + off.1)) by (nonlinear_arith)
        requires 0 <= b.y + off.1;
    (cx, cy)
}

/// The normal that probe `k` bounces a particle off.
fn probe_normal_of(k: usize) -> (r: (i64, i64))
    requires
        k < PROBE_COUNT,
    ensures
        (r.0 as int, r.1 as int) == probe_normal(k as int),
{
    if k == 0 {
        (-1, 0)
    } else if k == 1 {
        (1, 0)
    } else if k == 2 {
        (0, -1)
    } else {
        (0, 1)
    }
}

/// Exec form of `settle_speed`.
fn settle(d: i64) -> (r: i64)
    ensures
        r as int == settle_speed(d as int),
        MIN_SPEED <= r <= MAX_SPEED || -MAX_SPEED <= r <= -MIN_SPEED,
{
    let c = clamp_i64(d, -MAX_SPEED, MAX_SPEED);
    if -MIN_SPEED < c && c < MIN_SPEED {
        if c > 0 {
            MIN_SPEED
        } else {
            -MIN_SPEED
        }
    } else {
        c
    }
}

/// The owner of row `y` when a game of height `h` starts: the top half
/// (rows `y < h / 2`) is Night, the rest Day.
pub open spec fn initial_color(h: int, y: int) -> SquareColor {
    if y < h / 2 {
        SquareColor::Night
    } else {
        SquareColor::Day
    }
}

/// Starting position of Day particle `i` of `k`: spread evenly across the
/// width, three quarters of the way down (the centre of Day's half).
pub open spec fn day_start(w: int, h: int, k: int, i: int) -> (int, int) {
    (
        clamp(w * SCALE * (i + 1) / (k + 1), HALF_CELL as int, field_max(w)),
        clamp(3 * h * SCALE / 4, HALF_CELL as int, field_max(h)),
    )
}

/// Starting position of Night particle `i` of `k`: Day particle `i` mirrored
/// through the centre of the grid.
pub open spec fn night_start(w: int, h: int, k: int, i: int) -> (int, int) {
    (w * SCALE - day_start(w, h, k, i).0, h * SCALE - day_start(w, h, k, i).1)
}

/// Velocity, before its random jitter, that a Day particle starts with: base
/// speed toward the top right corner, the Night territory.
pub open spec fn day_heading(w: int, h: int) -> (int, int) {
    let l = crate::physics::isqrt_spec(w * SCALE * (w * SCALE) + h * SCALE * (h * SCALE));
    (BASE_SPEED * (w * SCALE) / l, -(BASE_SPEED * (h * SCALE) / l))
}

/// Velocity, before its random jitter, that a particle of `team` starts with.
pub open spec fn team_heading(team: SquareColor, w: int, h: int) -> (int, int) {
    if team == SquareColor::Day {
        day_heading(w, h)
    } else {
        (-day_heading(w, h).0, -day_heading(w, h).1)
    }
}

/// `b` is a particle of `team` at `pos`, with its team's heading turned by at
/// most 30 degrees.
pub open spec fn launched(b: Ball, team: SquareColor, pos: (int, int), w: int, h: int) -> bool {
    &&& b.color_type == team
    &&& (b.x as int, b.y as int) == pos
    &&& exists|s: int|
        -HEADING_SIN_MAX <= s <= HEADING_SIN_MAX && (b.dx as int, b.dy as int) == #[trigger] turn(
            team_heading(team, w, h),
            s,
        )
}

/// Particles `2 i` and `2 i + 1` of `balls` are the `i`th Day and Night
/// particles of a new game with `k` particles per team.
pub open spec fn launched_pair(balls: Seq<Ball>, w: int, h: int, k: int, i: int) -> bool {
    &&& launched(balls[2 * i], SquareColor::Day, day_start(w, h, k, i), w, h)
    &&& launched(balls[2 * i + 1], SquareColor::Night, night_start(w, h, k, i), w, h)
}

/// The random values of one tick, drawn from `rng` for `n` particles.
fn draw_noise(rng: &mut rand::rngs::StdRng, n: usize) -> (r: Vec<BallNoise>)
    ensures
        r@.len() == n,
        forall|i: int| 0 <= i < n ==> noise_ok(#[trigger] r@[i]),
{
    let mut r: Vec<BallNoise> = Vec::new();
    let mut i: usize = 0;
    while i < n
        invariant
            0 <= i <= n,
            r@.len() == i,
            forall|j: int| 0 <= j < i ==> noise_ok(#[trigger] r@[j]),
        decreases n - i,
    {
        let mut turns: Vec<i64> = Vec::new();
        let mut k: usize = 0;
        while k < PROBE_COUNT
            invariant
                0 <= k <= PROBE_COUNT,
                turns@.len() == k,
                forall|m: int| 0 <= m < k ==> -TURN_SIN_MAX <= #[trigger] turns@[m] <= TURN_SIN_MAX,
            decreases PROBE_COUNT - k,
        {
            turns.push(draw_between(rng, -TURN_SIN_MAX, TURN_SIN_MAX));
            k += 1;
        }
        let jitter_dx = draw_between(rng, -SPEED_RANDOMNESS, SPEED_RANDOMNESS);
        let jitter_dy = draw_between(rng, -SPEED_RANDOMNESS, SPEED_RANDOMNESS);
        r.push(BallNoise { turns, jitter_dx, jitter_dy });
        i += 1;
    }
    r
}

/// Velocity a particle of `team` starts with: the team's heading turned by
/// the angle with fixed-point sine `s`.
fn start_velocity(w: usize, h: usize, team: SquareColor, s: i64) -> (r: (i64, i64))
    requires
        1 <= w <= MAX_DIMENSION,
        1 <= h <= MAX_DIMENSION,
        -HEADING_SIN_MAX <= s <= HEADING_SIN_MAX,
    ensures
        (r.0 as int, r.1 as int) == turn(team_heading(team, w as int, h as int), s as int),
        -MAX_SPEED <= r.0 <= MAX_SPEED,
        -MAX_SPEED <= r.1 <= MAX_SPEED,
{
    let ws = (w as u64) * (SCALE as u64);
    let hs = (h as u64) * (SCALE as u64);
    assert(ws * ws + hs * hs <= 2 * 655350000 * 655350000) by (nonlinear_arith)
        requires ws <= 655350000, hs <= 655350000;
    let l = crate::physics::isqrt(ws * ws + hs * hs);
    assert(ws <= l) by (nonlinear_arith)
        requires ws * ws <= ws * ws + hs * hs, (l + 1) * (l + 1) > ws * ws + hs * hs, l >= 0;
    assert(hs <= l) by (nonlinear_arith)
        requires hs * hs <= ws * ws + hs * hs, (l + 1) * (l + 1) > ws * ws + hs * hs, l >= 0;
    let ux = (BASE_SPEED as u64) * ws / l;
    let uy = (BASE_SPEED as u64) * hs / l;
    assert(ux <= BASE_SPEED) by (nonlinear_arith)
        requires ux as int == (3000 * ws) as int / (l as int), ws <= l, l > 0;
    assert(uy <= BASE_SPEED) by (nonlinear_arith)
        requires uy as int == (3000 * hs) as int / (l as int), hs <= l, l > 0;
    let v: (i64, i64) = if team == SquareColor::Day {
        (ux as i64, -(uy as i64))
    } else {
        (-(ux as i64), uy as i64)
    };
    proof {
        crate::physics::lemma_heading_bound((v.0 as int, v.1 as int), s as int);
    }
    turn_velocity(v.0, v.1, s)
}

impl GameState {
    /// The grid as a sequence of columns.
    pub open spec fn grid(&self) -> Seq<Seq<SquareColor>> {
        self.squares@.map_values(|c: Vec<SquareColor>| c@)
    }

    /// The grid has the stated dimensions and every particle is on the field.
    pub open spec fn wf(&self) -> bool {
        &&& 1 <= self.width <= MAX_DIMENSION
        &&& 1 <= self.height <= MAX_DIMENSION
        &&& self.squares@.len() == self.width
        &&& forall|x: int| 0 <= x < self.width ==> (#[trigger] self.squares@[x])@.len() == self.height
        &&& forall|i: int| 0 <= i < self.balls@.len() ==> in_field(#[trigger] self.balls@[i], self.width as int, self.height as int)
    }

    /// Number of probes in one tick.
    pub open spec fn probe_total(&self) -> nat {
        (PROBE_COUNT * self.balls@.len()) as nat
    }

    /// Starts a game on a `width` x `height` grid: the top half owned by Night,
    /// the bottom half by Day, and `balls_per_team` particles per team placed
    /// symmetrically about the centre of the grid, near the centre of their
    /// own half, heading toward the other team's half with a random jitter of
    /// up to 30 degrees. Particles alternate Day, Night. All randomness comes
    /// from `rng`.
    pub fn new(width: usize, height: usize, balls_per_team: u8, rng: rand::rngs::StdRng) -> (r: GameState)
        requires
            1 <= width <= MAX_DIMENSION,
            1 <= height <= MAX_DIMENSION,
            1 <= balls_per_team,
        ensures
            r.wf(),
            r.width == width,
            r.height == height,
            forall|x: int, y: int|
                0 <= x < width && 0 <= y < height ==> #[trigger] r.grid()[x][y] == initial_color(height as int, y),
            r.day_score == (height - height / 2) * width,
            r.night_score == (height / 2) * width,
            r.day_score + r.night_score == width * height,
            crate::scoring::scores_match(r),
            r.balls@.len() == 2 * balls_per_team,
            forall|i: int|
                0 <= i < balls_per_team ==> #[trigger] launched_pair(
                    r.balls@,
                    width as int,
                    height as int,
                    balls_per_team as int,
                    i,
                ),
    {
        let mut rng = rng;
        let half_height = height / 2;
        let mut squares: Vec<Vec<SquareColor>> = Vec::new();
        let mut x: usize = 0;
        while x < width
            invariant
                0 <= x <= width,
                half_height == height / 2,
                squares@.len() == x,
                forall|i: int| 0 <= i < x ==> (#[trigger] squares@[i])@.len() == height,
                forall|i: int, y: int|
                    0 <= i < x && 0 <= y < height ==> #[trigger] squares@[i]@[y] == initial_color(height as int, y),
            decreases width - x,
        {
            let mut column: Vec<SquareColor> = Vec::new();
            let mut y: usize = 0;
            while y < height
                invariant
                    0 <= y <= height,
                    half_height == height / 2,
                    column@.len() == y,
                    forall|j: int| 0 <= j < y ==> #[trigger] column@[j] == initial_color(height as int, j),
                decreases height - y,
            {
                if y < half_height {
                    column.push(SquareColor::Night);
                } else {
                    column.push(SquareColor::Day);
                }
                y += 1;
            }
            squares.push(column);
            x += 1;
        }
        let k = balls_per_team as i64;
        let ws = (width as i64) * SCALE;
        let hs = (height as i64) * SCALE;
        let xmax = ws - HALF_CELL;
        let ymax = hs - HALF_CELL;
        let ghost w = width as int;
        let ghost h = height as int;
        assert(ws <= 655350000 && hs <= 655350000) by (nonlinear_arith)
            requires ws == width * 10000, hs == height * 10000, width <= MAX_DIMENSION, height <= MAX_DIMENSION;
        let mut balls: Vec<Ball> = Vec::new();
        let mut i: i64 = 0;
        assert(0 <= 3 * hs / 4) by (nonlinear_arith)
            requires hs >= 0;
        let start_y = clamp_i64(3 * hs / 4, HALF_CELL, ymax);
        while i < k
            invariant
                0 <= i <= k,
                k == balls_per_team,
                1 <= width <= MAX_DIMENSION,
                1 <= height <= MAX_DIMENSION,
                w == width,
                h == height,
                ws == w * SCALE,
                hs == h * SCALE,
                ws <= 655350000,
                xmax == field_max(w),
                ymax == field_max(h),
                start_y == day_start(w, h, k as int, 0).1,
                balls@.len() == 2 * i,
                forall|j: int| 0 <= j < balls@.len() ==> in_field(#[trigger] balls@[j], w, h),
                forall|j: int| 0 <= j < i ==> #[trigger] launched_pair(balls@, w, h, k as int, j),
            decreases k - i,
        {
            assert(0 <= ws * (i + 1) <= 655350000 * 256) by (nonlinear_arith)
                requires 0 <= ws <= 655350000, 0 <= i < k, k <= 255;
            assert(0 <= ws * (i + 1) / (k + 1) <= ws) by (nonlinear_arith)
                requires ws >= 0, 0 <= i < k;
            let start_x = clamp_i64(ws * (i + 1) / (k + 1), HALF_CELL, xmax);
            let s_day = draw_between(&mut rng, -HEADING_SIN_MAX, HEADING_SIN_MAX);
            let s_night = draw_between(&mut rng, -HEADING_SIN_MAX, HEADING_SIN_MAX);
            let vd = start_velocity(width, height, SquareColor::Day, s_day);
            let vn = start_velocity(width, height, SquareColor::Night, s_night);
            let ghost prev = balls@;
            balls.push(Ball::new(start_x, start_y, vd.0, vd.1, SquareColor::Day));
            balls.push(Ball::new(ws - start_x, hs - start_y, vn.0, vn.1, SquareColor::Night));
            assert forall|j: int| 0 <= j < i + 1 implies #[trigger] launched_pair(balls@, w, h, k as int, j) by {
                if j < i {
                    assert(balls@[2 * j] == prev[2 * j]);
                    assert(balls@[2 * j + 1] == prev[2 * j + 1]);
                    assert(launched_pair(prev, w, h, k as int, j));
                } else {
                    assert(2 * j == 2 * i);
                    assert(balls@[2 * j] == balls@[2 * i]);
                    assert((vd.0 as int, vd.1 as int) == turn(team_heading(SquareColor::Day, w, h), s_day as int));
                    assert((vn.0 as int, vn.1 as int) == turn(team_heading(SquareColor::Night, w, h), s_night as int));
                }
            }
            i += 1;
        }
        assert((height - height / 2) * width + (height / 2) * width == width * height) by (nonlinear_arith);
        assert((height - height / 2) * width <= MAX_DIMENSION * MAX_DIMENSION) by (nonlinear_arith)
            requires 1 <= width <= MAX_DIMENSION, 1 <= height <= MAX_DIMENSION;
        assert((height / 2) * width <= MAX_DIMENSION * MAX_DIMENSION) by (nonlinear_arith)
            requires 1 <= width <= MAX_DIMENSION, 1 <= height <= MAX_DIMENSION;
        let r = GameState {
            width,
            height,
            squares,
            balls,
            day_score: (height - half_height) * width,
            night_score: half_height * width,
            rng,
        };
        assert(forall|x: int, y: int|
            0 <= x < width && 0 <= y < height ==> #[trigger] r.grid()[x][y] == r.squares@[x]@[y]);
        proof {
            assert(crate::scoring::shaped(r.grid(), w, h));
            crate::scoring::lemma_initial_counts(r.grid(), w, h);
            assert(w * (h - h / 2) == (h - h / 2) * w) by (nonlinear_arith);
            assert(w * (h / 2) == (h / 2) * w) by (nonlinear_arith);
        }
        r
    }

    /// The grid's width, in cells.
    pub fn width(&self) -> (r: usize)
        ensures
            r == self.width,
    {
        self.width
    }

    /// The grid's height, in cells.
    pub fn height(&self) -> (r: usize)
        ensures
            r == self.height,
    {
        self.height
    }

    /// Advances the game by one tick, drawing its random values from the
    /// game's own random source: `advance` with noise within the bounds of
    /// `noise_ok`.
    pub fn update(&mut self)
        requires
            old(self).wf(),
        ensures
            final(self).wf(),
            final(self).width == old(self).width,
            final(self).height == old(self).height,
            final(self).grid() == flipped_grid(
                old(self).grid(),
                old(self).width as int,
                old(self).height as int,
                old(self).balls@,
                old(self).probe_total(),
            ),
            final(self).balls@.len() == old(self).balls@.len(),
            forall|i: int|
                0 <= i < old(self).balls@.len() ==> steps_to(
                    old(self).grid(),
                    old(self).width as int,
                    old(self).height as int,
                    old(self).balls@[i],
                    #[trigger] final(self).balls@[i],
                ),
            forall|i: int|
                0 <= i < old(self).balls@.len() ==> is_settled(
                    #[trigger] final(self).balls@[i],
                    old(self).width as int,
                    old(self).height as int,
                ),
            final(self).day_score == adjusted(
                old(self).day_score as int,
                flip_delta(old(self).grid(), old(self).width as int, old(self).height as int, old(self).balls@, old(self).probe_total()),
            ),
            final(self).night_score == adjusted(
                old(self).night_score as int,
                -flip_delta(old(self).grid(), old(self).width as int, old(self).height as int, old(self).balls@, old(self).probe_total()),
            ),
    {
        let noise = draw_noise(&mut self.rng, self.balls.len());
        self.advance(&noise);
        assert forall|i: int| 0 <= i < old(self).balls@.len() implies steps_to(
            old(self).grid(),
            old(self).width as int,
            old(self).height as int,
            old(self).balls@[i],
            #[trigger] self.balls@[i],
        ) by {
            assert(noise_ok(noise@[i]));
            assert(self.balls@[i] == stepped_ball(
                old(self).grid(),
                old(self).width as int,
                old(self).height as int,
                old(self).balls@[i],
                noise@[i],
            ));
        }
    }

    /// Advances the game by one tick, with the random values given in `noise`
    /// (one entry per particle, in particle order).
    ///
    /// Each particle bounces off the walls, probes the four cells around its
    /// position on the grid as it stood at the start of the tick, captures
    /// those of the other team (bouncing and turning at each), moves, and has
    /// its speed perturbed and held within `[MIN_SPEED, MAX_SPEED]` per axis.
    /// The scores move by the number of captures, held at zero from below.
    pub fn advance(&mut self, noise: &Vec<BallNoise>)
        requires
            old(self).wf(),
            noise@.len() == old(self).balls@.len(),
            forall|i: int| 0 <= i < noise@.len() ==> noise_ok(#[trigger] noise@[i]),
        ensures
            final(self).wf(),
            final(self).width == old(self).width,
            final(self).height == old(self).height,
            final(self).grid() == flipped_grid(
                old(self).grid(),
                old(self).width as int,
                old(self).height as int,
                old(self).balls@,
                old(self).probe_total(),
            ),
            final(self).balls@.len() == old(self).balls@.len(),
            forall|i: int|
                0 <= i < old(self).balls@.len() ==> #[trigger] final(self).balls@[i] == stepped_ball(
                    old(self).grid(),
                    old(self).width as int,
                    old(self).height as int,
                    old(self).balls@[i],
                    noise@[i],
                ),
            forall|i: int|
                0 <= i < old(self).balls@.len() ==> is_settled(
                    #[trigger] final(self).balls@[i],
                    old(self).width as int,
                    old(self).height as int,
                ),
            final(self).day_score == adjusted(
                old(self).day_score as int,
                flip_delta(old(self).grid(), old(self).width as int, old(self).height as int, old(self).balls@, old(self).probe_total()),
            ),
            final(self).night_score == adjusted(
                old(self).night_score as int,
                -flip_delta(old(self).grid(), old(self).width as int, old(self).height as int, old(self).balls@, old(self).probe_total()),
            ),
    {
        let n = self.balls.len();
        let w = self.width;
        let h = self.height;
        let xmax = (w as i64) * SCALE - HALF_CELL;
        let ymax = (h as i64) * SCALE - HALF_CELL;
        let ghost grid0 = self.grid();
        let ghost balls0 = self.balls@;
        let mut new_balls: Vec<Ball> = Vec::new();
        let mut flips: Vec<(usize, usize, SquareColor)> = Vec::new();
        let mut delta: i128 = 0;
        let mut i: usize = 0;
        while i < n
            invariant
                self.wf(),
                self.grid() == grid0,
                self.balls@ == balls0,
                self.day_score == old(self).day_score,
                self.night_score == old(self).night_score,
                n == balls0.len(),
                w == self.width,
                h == self.height,
                xmax == field_max(w as int),
                ymax == field_max(h as int),
                noise@.len() == n,
                forall|j: int| 0 <= j < noise@.len() ==> noise_ok(#[trigger] noise@[j]),
                0 <= i <= n,
                new_balls@.len() == i,
                forall|j: int|
                    0 <= j < i ==> #[trigger] new_balls@[j] == stepped_ball(grid0, w as int, h as int, balls0[j], noise@[j]),
                forall|j: int| 0 <= j < i ==> is_settled(#[trigger] new_balls@[j], w as int, h as int),
                apply_flips(grid0, flips@) == flipped_grid(grid0, w as int, h as int, balls0, (4 * i) as nat),
                delta == flip_delta(grid0, w as int, h as int, balls0, (4 * i) as nat),
                -4 * i <= delta <= 4 * i,
                forall|j: int| 0 <= j < flips@.len() ==> (#[trigger] flips@[j]).0 < w && flips@[j].1 < h,
            decreases n - i,
        {
            let b = self.balls[i];
            let mut v = wall_reflect(&b, w, h);
            let mut k: usize = 0;
            while k < PROBE_COUNT
                invariant
                    self.wf(),
                    self.grid() == grid0,
                    self.balls@ == balls0,
                    n == balls0.len(),
                    w == self.width,
                    h == self.height,
                    noise@.len() == n,
                    noise_ok(noise@[i as int]),
                    0 <= i < n,
                    b == balls0[i as int],
                    0 <= k <= PROBE_COUNT,
                    (v.0 as int, v.1 as int) == probe_velocity(grid0, w as int, h as int, b, noise@[i as int].turns@, k as nat),
                    -(5000 + 1000 * k) <= v.0 <= 5000 + 1000 * k,
                    -(5000 + 1000 * k) <= v.1 <= 5000 + 1000 * k,
                    apply_flips(grid0, flips@) == flipped_grid(grid0, w as int, h as int, balls0, (4 * i + k) as nat),
                    delta == flip_delta(grid0, w as int, h as int, balls0, (4 * i + k) as nat),
                    -(4 * i + k) <= delta <= 4 * i + k,
                    forall|j: int| 0 <= j < flips@.len() ==> (#[trigger] flips@[j]).0 < w && flips@[j].1 < h,
                decreases PROBE_COUNT - k,
            {
                let ghost p = 4 * i + k;
                assert(p / 4 == i && p % 4 == k) by (nonlinear_arith)
                    requires p == 4 * i + k, 0 <= k < 4;
                let c = probe_cell_of(&b, k);
                if c.0 < w as i64 && c.1 < h as i64 && self.squares[c.0 as usize][c.1 as usize] != b.color_type {
                    let ghost prev = flips@;
                    flips.push((c.0 as usize, c.1 as usize, b.color_type));
                    assert(flips@.drop_last() == prev);
                    if b.color_type == SquareColor::Day {
                        delta = delta + 1;
                    } else {
                        delta = delta - 1;
                    }
                    let nrm = probe_normal_of(k);
                    let r = reflect_velocity(v.0, v.1, nrm.0, nrm.1);
                    proof {
                        lemma_turn_bound(
                            (r.0 as int, r.1 as int),
                            noise@[i as int].turns@[k as int] as int,
                            5000 + 1000 * k,
                        );
                    }
                    v = turn_velocity(r.0, r.1, noise[i].turns[k]);
                }
                k += 1;
            }
            let x = clamp_i64(b.x + v.0, HALF_CELL, xmax);
            let y = clamp_i64(b.y + v.1, HALF_CELL, ymax);
            let dx = settle(v.0 + noise[i].jitter_dx);
            let dy = settle(v.1 + noise[i].jitter_dy);
            new_balls.push(Ball::new(x, y, dx, dy, b.color_type));
            i += 1;
        }
        let ghost all_flips = flips@;
        let mut j: usize = 0;
        while j < flips.len()
            invariant
                0 <= j <= flips@.len(),
                flips@ == all_flips,
                self.day_score == old(self).day_score,
                self.night_score == old(self).night_score,
                self.width == w,
                self.height == h,
                self.squares@.len() == w,
                forall|x: int| 0 <= x < w ==> (#[trigger] self.squares@[x])@.len() == h,
                forall|m: int| 0 <= m < flips@.len() ==> (#[trigger] flips@[m]).0 < w && flips@[m].1 < h,
                self.grid() == apply_flips(grid0, flips@.take(j as int)),
            decreases flips@.len() - j,
        {
            let e = flips[j];
            let ghost before = self.grid();
            self.squares[e.0][e.1] = e.2;
            assert(flips@.take(j + 1).drop_last() == flips@.take(j as int));
            assert(self.grid() =~~= set_cell(before, e.0 as int, e.1 as int, e.2));
            j += 1;
        }
        assert(flips@.take(flips@.len() as int) == flips@);
        self.balls = new_balls;
        assert(-4 * n <= delta <= 4 * n);
        assert(old(self).probe_total() == 4 * n);
        let day = self.day_score as i128 + delta;
        self.day_score = if day < 0 {
            0
        } else if day > usize::MAX as i128 {
            usize::MAX
        } else {
            day as usize
        };
        let night = self.night_score as i128 - delta;
        self.night_score = if night < 0 {
            0
        } else if night > usize::MAX as i128 {
            usize::MAX
        } else {
            night as usize
        };
    }
}

} // verus!
