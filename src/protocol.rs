//! The display modules' command protocol, and how a game is drawn on them.
//!
//! Every command is the two magic bytes, a command byte, and its payload.
use vstd::prelude::*;
use crate::game::{Ball, GameState, SquareColor};
use crate::physics::{floor_cells, SCALE};

verus! {

/// First magic byte of every command.
pub const MAGIC_0: u8 = 0x32;

/// Second magic byte of every command.
pub const MAGIC_1: u8 = 0xAC;

/// Sets the module's global brightness; payload: one byte.
pub const CMD_BRIGHTNESS: u8 = 0x00;

/// Draws a full monochrome frame; payload: `BW_PAYLOAD_LEN` bit-packed bytes.
pub const CMD_DRAW_BW: u8 = 0x06;

/// Stages one column of greyscale values; payload: column index, then values.
pub const CMD_STAGE_GREY_COL: u8 = 0x07;

/// Shows all staged greyscale columns; payload: one unused byte.
pub const CMD_DRAW_GREY_BUFFER: u8 = 0x08;

/// Columns of one module.
pub const MODULE_WIDTH: usize = 9;

/// Rows of one module.
pub const MODULE_HEIGHT: usize = 34;

/// Bytes of a monochrome frame's payload: one bit per pixel of a 9 x 34 module.
pub const BW_PAYLOAD_LEN: usize = 39;

/// Bytes of a whole monochrome frame command.
pub const BW_FRAME_LEN: usize = 42;

/// Serial line speed, in baud.
pub const BAUD_RATE: u32 = 115200;

/// The brightness command for `level`.
pub open spec fn brightness_command_spec(level: u8) -> Seq<u8> {
    seq![MAGIC_0, MAGIC_1, CMD_BRIGHTNESS, level]
}

/// The brightness command for `level`.
pub fn brightness_command(level: u8) -> (r: Vec<u8>)
    ensures
        r@ == brightness_command_spec(level),
{
    let mut r: Vec<u8> = Vec::new();
    r.push(MAGIC_0);
    r.push(MAGIC_1);
    r.push(CMD_BRIGHTNESS);
    r.push(level);
    assert(r@ =~= seq![MAGIC_0, MAGIC_1, CMD_BRIGHTNESS, level]);
    r
}

/// The command that stages greyscale column `column` with `levels`, one per row.
pub fn grey_column_command(column: u8, levels: &Vec<u8>) -> (r: Vec<u8>)
    ensures
        r@ == seq![MAGIC_0, MAGIC_1, CMD_STAGE_GREY_COL, column] + levels@,
{
    let mut r: Vec<u8> = Vec::new();
    r.push(MAGIC_0);
    r.push(MAGIC_1);
    r.push(CMD_STAGE_GREY_COL);
    r.push(column);
    let mut i: usize = 0;
    while i < levels.len()
        invariant
            0 <= i <= levels@.len(),
            r@ == seq![MAGIC_0, MAGIC_1, CMD_STAGE_GREY_COL, column] + levels@.take(i as int),
        decreases levels@.len() - i,
    {
        r.push(levels[i]);
        assert(levels@.take(i + 1) == levels@.take(i as int).push(levels@[i as int]));
        i += 1;
    }
    assert(levels@.take(levels@.len() as int) == levels@);
    r
}

/// The command that shows every staged greyscale column at once.
pub fn commit_grey_command() -> (r: Vec<u8>)
    ensures
        r@ == seq![MAGIC_0, MAGIC_1, CMD_DRAW_GREY_BUFFER, 0u8],
{
    let mut r: Vec<u8> = Vec::new();
    r.push(MAGIC_0);
    r.push(MAGIC_1);
    r.push(CMD_DRAW_GREY_BUFFER);
    r.push(0);
    assert(r@ =~= seq![MAGIC_0, MAGIC_1, CMD_DRAW_GREY_BUFFER, 0u8]);
    r
}

/// Some particle of `balls` lies in cell `(x, y)`.
pub open spec fn has_ball(balls: Seq<Ball>, x: int, y: int) -> bool {
    exists|i: int| 0 <= i < balls.len() && floor_cells(#[trigger] balls[i].x as int) == x && floor_cells(balls[i].y as int) == y
}

/// A pixel is lit on a Day cell and dark on a Night cell, and the other way
/// round where a particle stands, so that particles show on either side.
pub open spec fn lit(color: SquareColor, occupied: bool) -> bool {
    if occupied {
        color == SquareColor::Night
    } else {
        color == SquareColor::Day
    }
}

/// Pixel `i` (column `i % 9`, row `i / 9`) of module `module`, which shows
/// the grid's columns `9 * module` to `9 * module + 8`, showing `rows` rows.
pub open spec fn pixel_on(game: GameState, module: int, rows: int, i: int) -> bool {
    let x = module * MODULE_WIDTH + i % (MODULE_WIDTH as int);
    let y = i / (MODULE_WIDTH as int);
    &&& y < rows
    &&& y < game.height
    &&& x < game.width
    &&& lit(game.grid()[x][y], has_ball(game.balls@, x, y))
}

/// Weight of bit `b` of a byte.
pub open spec fn bit_weight(b: nat) -> int
    decreases b,
{
    if b == 0 {
        1
    } else {
        2 * bit_weight((b - 1) as nat)
    }
}

/// Weights grow with the bit position.
proof fn lemma_bit_weight_mono(a: nat, b: nat)
    requires
        a <= b,
    ensures
        1 <= bit_weight(a) <= bit_weight(b),
    decreases b,
{
    if a < b {
        lemma_bit_weight_mono(a, (b - 1) as nat);
    } else if b > 0 {
        lemma_bit_weight_mono(0, (b - 1) as nat);
    }
}

/// The weight of a bit below the eighth is at most 128.
proof fn lemma_bit_weight_bound(b: nat)
    requires
        b < 8,
    ensures
        1 <= bit_weight(b) <= 128,
{
    reveal_with_fuel(bit_weight, 8);
    assert(bit_weight(7) == 128);
    lemma_bit_weight_mono(b, 7);
}

/// Value of the low `n` bits of payload byte `j`: bit `b` holds pixel `8 j + b`.
pub open spec fn packed_bits(game: GameState, module: int, rows: int, j: int, n: nat) -> int
    decreases n,
{
    if n == 0 {
        0
    } else {
        packed_bits(game, module, rows, j, (n - 1) as nat) + if pixel_on(game, module, rows, 8 * j + n - 1) {
            bit_weight((n - 1) as nat)
        } else {
            0
        }
    }
}

/// The monochrome frame command that draws module `module` of the game.
pub open spec fn bw_frame_spec(game: GameState, module: int, rows: int) -> Seq<u8> {
    seq![MAGIC_0, MAGIC_1, CMD_DRAW_BW] + Seq::new(BW_PAYLOAD_LEN as nat, |j: int| packed_bits(game, module, rows, j, 8) as u8)
}

/// Whether some particle lies in cell `(x, y)`.
fn ball_in_cell(balls: &Vec<Ball>, x: usize, y: usize) -> (r: bool)
    requires
        forall|i: int| 0 <= i < balls@.len() ==> 0 <= #[trigger] balls@[i].x && 0 <= balls@[i].y,
    ensures
        r == has_ball(balls@, x as int, y as int),
{
    let mut i: usize = 0;
    while i < balls.len()
        invariant
            0 <= i <= balls@.len(),
            forall|m: int| 0 <= m < balls@.len() ==> 0 <= #[trigger] balls@[m].x && 0 <= balls@[m].y,
            forall|m: int|
                0 <= m < i ==> !(floor_cells(#[trigger] balls@[m].x as int) == x && floor_cells(balls@[m].y as int) == y),
        decreases balls@.len() - i,
    {
        let b = balls[i];
        let bx = (b.x as u64) / (SCALE as u64);
        let by = (b.y as u64) / (SCALE as u64);
        if bx == x as u64 && by == y as u64 {
            return true;
        }
        i += 1;
    }
    false
}

/// Exec form of `pixel_on`.
fn pixel(game: &GameState, module: usize, rows: usize, i: usize) -> (r: bool)
    requires
        game.wf(),
        module <= 2 * MODULE_WIDTH,
    ensures
        r == pixel_on(*game, module as int, rows as int, i as int),
{
    let x = module * MODULE_WIDTH + i % MODULE_WIDTH;
    let y = i / MODULE_WIDTH;
    if y < rows && y < game.height && x < game.width {
        let occupied = ball_in_cell(&game.balls, x, y);
        let c = game.squares[x][y];
        assert(game.grid()[x as int][y as int] == c);
        if occupied {
            c == SquareColor::Night
        } else {
            c == SquareColor::Day
        }
    } else {
        false
    }
}

/// The monochrome frame command that draws module `module` of the game,
/// showing `rows` rows (at most `MODULE_HEIGHT`): bit `i % 8` of payload byte
/// `i / 8` holds pixel `i`.
pub fn bw_frame(game: &GameState, module: usize, rows: usize) -> (r: Vec<u8>)
    requires
        game.wf(),
        module <= 2 * MODULE_WIDTH,
    ensures
        r@.len() == BW_FRAME_LEN,
        r@[0] == MAGIC_0,
        r@[1] == MAGIC_1,
        r@[2] == CMD_DRAW_BW,
        forall|j: int| 0 <= j < BW_PAYLOAD_LEN ==> #[trigger] r@[3 + j] as int == packed_bits(*game, module as int, rows as int, j, 8),
        r@ == bw_frame_spec(*game, module as int, rows as int),
{
    let mut r: Vec<u8> = Vec::new();
    r.push(MAGIC_0);
    r.push(MAGIC_1);
    r.push(CMD_DRAW_BW);
    let mut j: usize = 0;
    while j < BW_PAYLOAD_LEN
        invariant
            game.wf(),
            module <= 2 * MODULE_WIDTH,
            0 <= j <= BW_PAYLOAD_LEN,
            r@.len() == 3 + j,
            r@[0] == MAGIC_0,
            r@[1] == MAGIC_1,
            r@[2] == CMD_DRAW_BW,
            forall|m: int| 0 <= m < j ==> #[trigger] r@[3 + m] as int == packed_bits(*game, module as int, rows as int, m, 8),
        decreases BW_PAYLOAD_LEN - j,
    {
        let mut acc: u32 = 0;
        let mut weight: u32 = 1;
        let mut b: usize = 0;
        while b < 8
            invariant
                game.wf(),
                module <= 2 * MODULE_WIDTH,
                j < BW_PAYLOAD_LEN,
                0 <= b <= 8,
                weight == bit_weight(b as nat),
                weight <= 256,
                acc < weight,
                acc == packed_bits(*game, module as int, rows as int, j as int, b as nat),
            decreases 8 - b,
        {
            proof {
                lemma_bit_weight_bound(b as nat);
            }
            if pixel(game, module, rows, 8 * j + b) {
                acc = acc + weight;
            }
            weight = weight * 2;
            b += 1;
        }
        let ghost prev = r@;
        r.push(acc as u8);
        assert forall|m: int| 0 <= m < j + 1 implies #[trigger] r@[3 + m] as int == packed_bits(*game, module as int, rows as int, m, 8) by {
            if m < j {
                assert(r@[3 + m] == prev[3 + m]);
            }
        }
        j += 1;
    }
    assert forall|j: int| 0 <= j < BW_PAYLOAD_LEN implies #[trigger] r@[3 + j] == (packed_bits(
        *game,
        module as int,
        rows as int,
        j,
        8,
    ) as u8) by {
        assert(r@[3 + j] as int == packed_bits(*game, module as int, rows as int, j, 8));
    }
    assert(r@ =~= bw_frame_spec(*game, module as int, rows as int)) by {
        assert forall|i: int| 3 <= i < BW_FRAME_LEN implies r@[i] == bw_frame_spec(*game, module as int, rows as int)[i] by {
            assert(r@[3 + (i - 3)] == (packed_bits(*game, module as int, rows as int, i - 3, 8) as u8));
        }
    }
    r
}

} // verus!
