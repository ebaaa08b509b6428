//! Cell counts, and how the running scores relate to them.
use vstd::prelude::*;
use crate::game::{
    adjusted, cell_at, flip_at, flip_delta, flipped_grid, initial_color, set_cell, Ball, GameState, SquareColor,
};

verus! {

/// Cells of `col` owned by `c`.
pub open spec fn count_col(col: Seq<SquareColor>, c: SquareColor) -> int
    decreases col.len(),
{
    if col.len() == 0 {
        0
    } else {
        count_col(col.drop_last(), c) + if col.last() == c { 1int } else { 0int }
    }
}

/// Cells of `g` owned by `c`.
pub open spec fn count_grid(g: Seq<Seq<SquareColor>>, c: SquareColor) -> int
    decreases g.len(),
{
    if g.len() == 0 {
        0
    } else {
        count_grid(g.drop_last(), c) + count_col(g.last(), c)
    }
}

/// `g` has `w` columns of `h` cells.
pub open spec fn shaped(g: Seq<Seq<SquareColor>>, w: int, h: int) -> bool {
    g.len() == w && forall|x: int| 0 <= x < w ==> (#[trigger] g[x]).len() == h
}

/// No two captures of the first `p` probes of a tick land on one cell.
pub open spec fn no_double_flip(grid: Seq<Seq<SquareColor>>, w: int, h: int, balls: Seq<Ball>, p: int) -> bool {
    forall|q1: int, q2: int|
        0 <= q1 < q2 < p && #[trigger] flip_at(grid, w, h, balls, q1) && #[trigger] flip_at(grid, w, h, balls, q2)
            ==> cell_at(balls, q1) != cell_at(balls, q2)
}

/// The scores are the numbers of cells each team owns.
pub open spec fn scores_match(s: GameState) -> bool {
    &&& s.day_score == count_grid(s.grid(), SquareColor::Day)
    &&& s.night_score == count_grid(s.grid(), SquareColor::Night)
}

proof fn lemma_count_col_update(col: Seq<SquareColor>, y: int, v: SquareColor, c: SquareColor)
    requires
        0 <= y < col.len(),
    ensures
        count_col(col.update(y, v), c) == count_col(col, c) - (if col[y] == c { 1int } else { 0int }) + (if v
            == c { 1int } else { 0int }),
    decreases col.len(),
{
    let u = col.update(y, v);
    if y == col.len() - 1 {
        assert(u.drop_last() =~= col.drop_last());
    } else {
        assert(u.drop_last() =~= col.drop_last().update(y, v));
        lemma_count_col_update(col.drop_last(), y, v, c);
    }
}

proof fn lemma_count_grid_update(g: Seq<Seq<SquareColor>>, x: int, col: Seq<SquareColor>, c: SquareColor)
    requires
        0 <= x < g.len(),
    ensures
        count_grid(g.update(x, col), c) == count_grid(g, c) - count_col(g[x], c) + count_col(col, c),
    decreases g.len(),
{
    let u = g.update(x, col);
    if x == g.len() - 1 {
        assert(u.drop_last() =~= g.drop_last());
    } else {
        assert(u.drop_last() =~= g.drop_last().update(x, col));
        lemma_count_grid_update(g.drop_last(), x, col, c);
    }
}

proof fn lemma_count_set(g: Seq<Seq<SquareColor>>, x: int, y: int, v: SquareColor, c: SquareColor)
    requires
        0 <= x < g.len(),
        0 <= y < g[x].len(),
    ensures
        count_grid(set_cell(g, x, y, v), c) == count_grid(g, c) - (if g[x][y] == c { 1int } else { 0int }) + (if v
            == c { 1int } else { 0int }),
{
    lemma_count_col_update(g[x], y, v, c);
    lemma_count_grid_update(g, x, g[x].update(y, v), c);
}

proof fn lemma_col_total(col: Seq<SquareColor>)
    ensures
        count_col(col, SquareColor::Day) + count_col(col, SquareColor::Night) == col.len(),
    decreases col.len(),
{
    if col.len() > 0 {
        lemma_col_total(col.drop_last());
    }
}

/// A grid of `w` columns of `h` cells has `w * h` cells in all.
pub proof fn lemma_grid_total(g: Seq<Seq<SquareColor>>, w: int, h: int)
    requires
        shaped(g, w, h),
    ensures
        count_grid(g, SquareColor::Day) + count_grid(g, SquareColor::Night) == w * h,
    decreases g.len(),
{
    if g.len() > 0 {
        let d = g.drop_last();
        assert(shaped(d, w - 1, h)) by {
            assert forall|x: int| 0 <= x < w - 1 implies (#[trigger] d[x]).len() == h by {
                assert(d[x] == g[x]);
            }
        }
        lemma_grid_total(d, w - 1, h);
        lemma_col_total(g.last());
        assert(g.last() == g[w - 1]);
        assert((w - 1) * h + h == w * h) by (nonlinear_arith);
    } else {
        assert(w * h == 0) by (nonlinear_arith)
            requires w == 0;
    }
}

proof fn lemma_flipped_shape(grid: Seq<Seq<SquareColor>>, w: int, h: int, balls: Seq<Ball>, p: nat)
    requires
        shaped(grid, w, h),
    ensures
        shaped(flipped_grid(grid, w, h, balls, p), w, h),
    decreases p,
{
    if p > 0 {
        lemma_flipped_shape(grid, w, h, balls, (p - 1) as nat);
        let g = flipped_grid(grid, w, h, balls, (p - 1) as nat);
        if flip_at(grid, w, h, balls, p - 1) {
            let c = cell_at(balls, p - 1);
            let n = set_cell(g, c.0, c.1, balls[(p - 1) / 4].color_type);
            assert forall|x: int| 0 <= x < w implies (#[trigger] n[x]).len() == h by {
                if x != c.0 {
                    assert(n[x] == g[x]);
                }
            }
        }
    }
}

proof fn lemma_unflipped_cell(grid: Seq<Seq<SquareColor>>, w: int, h: int, balls: Seq<Ball>, p: nat, x: int, y: int)
    requires
        shaped(grid, w, h),
        0 <= x < w,
        0 <= y < h,
        forall|q: int| 0 <= q < p && #[trigger] flip_at(grid, w, h, balls, q) ==> cell_at(balls, q) != (x, y),
    ensures
        flipped_grid(grid, w, h, balls, p)[x][y] == grid[x][y],
    decreases p,
{
    if p > 0 {
        lemma_unflipped_cell(grid, w, h, balls, (p - 1) as nat, x, y);
        lemma_flipped_shape(grid, w, h, balls, (p - 1) as nat);
    }
}

/// Without two captures of one cell in a tick, the Day and Night cell counts
/// move by exactly `flip_delta` and its opposite.
pub proof fn lemma_flips_counted(grid: Seq<Seq<SquareColor>>, w: int, h: int, balls: Seq<Ball>, p: nat)
    requires
        shaped(grid, w, h),
        no_double_flip(grid, w, h, balls, p as int),
    ensures
        shaped(flipped_grid(grid, w, h, balls, p), w, h),
        count_grid(flipped_grid(grid, w, h, balls, p), SquareColor::Day) == count_grid(grid, SquareColor::Day)
            + flip_delta(grid, w, h, balls, p),
        count_grid(flipped_grid(grid, w, h, balls, p), SquareColor::Night) == count_grid(grid, SquareColor::Night)
            - flip_delta(grid, w, h, balls, p),
    decreases p,
{
    lemma_flipped_shape(grid, w, h, balls, p);
    if p > 0 {
        let q = p - 1;
        assert(no_double_flip(grid, w, h, balls, q));
        lemma_flips_counted(grid, w, h, balls, q as nat);
        if flip_at(grid, w, h, balls, q) {
            let g = flipped_grid(grid, w, h, balls, q as nat);
            let c = cell_at(balls, q);
            assert forall|r: int| 0 <= r < q && #[trigger] flip_at(grid, w, h, balls, r) implies cell_at(balls, r) != c by {
                assert(flip_at(grid, w, h, balls, r) && flip_at(grid, w, h, balls, q));
            }
            lemma_unflipped_cell(grid, w, h, balls, q as nat, c.0, c.1);
            lemma_count_set(g, c.0, c.1, balls[q / 4].color_type, SquareColor::Day);
            lemma_count_set(g, c.0, c.1, balls[q / 4].color_type, SquareColor::Night);
        }
    }
}

/// Absent same-tick double captures, a tick keeps the scores equal to the
/// numbers of cells each team owns, and so their sum equal to `width * height`:
/// `t` is any state that `update` or `advance` may leave after `s`.
pub proof fn lemma_scores_track_cells(s: GameState, t: GameState)
    requires
        s.wf(),
        scores_match(s),
        no_double_flip(s.grid(), s.width as int, s.height as int, s.balls@, s.probe_total() as int),
        t.width == s.width,
        t.height == s.height,
        t.grid() == flipped_grid(s.grid(), s.width as int, s.height as int, s.balls@, s.probe_total()),
        t.day_score == adjusted(
            s.day_score as int,
            flip_delta(s.grid(), s.width as int, s.height as int, s.balls@, s.probe_total()),
        ),
        t.night_score == adjusted(
            s.night_score as int,
            -flip_delta(s.grid(), s.width as int, s.height as int, s.balls@, s.probe_total()),
        ),
    ensures
        scores_match(t),
        t.day_score + t.night_score == t.width * t.height,
{
    let w = s.width as int;
    let h = s.height as int;
    assert(shaped(s.grid(), w, h));
    lemma_flips_counted(s.grid(), w, h, s.balls@, s.probe_total());
    let g = flipped_grid(s.grid(), w, h, s.balls@, s.probe_total());
    lemma_count_nonneg(g, SquareColor::Day);
    lemma_count_nonneg(g, SquareColor::Night);
    lemma_grid_total(g, w, h);
    assert(w * h <= 65535 * 65535) by (nonlinear_arith)
        requires 1 <= w <= 65535, 1 <= h <= 65535;
}

proof fn lemma_count_col_nonneg(col: Seq<SquareColor>, c: SquareColor)
    ensures
        count_col(col, c) >= 0,
    decreases col.len(),
{
    if col.len() > 0 {
        lemma_count_col_nonneg(col.drop_last(), c);
    }
}

proof fn lemma_count_nonneg(g: Seq<Seq<SquareColor>>, c: SquareColor)
    ensures
        count_grid(g, c) >= 0,
    decreases g.len(),
{
    if g.len() > 0 {
        lemma_count_nonneg(g.drop_last(), c);
        lemma_count_col_nonneg(g.last(), c);
    }
}

/// A starting column of height `h` has `h - h / 2` Day cells.
proof fn lemma_initial_column(col: Seq<SquareColor>, h: int)
    requires
        col.len() <= h,
        forall|y: int| 0 <= y < col.len() ==> #[trigger] col[y] == initial_color(h, y),
    ensures
        count_col(col, SquareColor::Day) == if col.len() <= h / 2 { 0 } else { col.len() - h / 2 },
        count_col(col, SquareColor::Night) == if col.len() <= h / 2 { col.len() as int } else { h / 2 },
    decreases col.len(),
{
    if col.len() > 0 {
        lemma_initial_column(col.drop_last(), h);
    }
}

/// A starting grid of `w` columns of height `h` has `w * (h - h / 2)` Day
/// cells and `w * (h / 2)` Night cells.
pub proof fn lemma_initial_counts(g: Seq<Seq<SquareColor>>, w: int, h: int)
    requires
        h >= 0,
        shaped(g, w, h),
        forall|x: int, y: int| 0 <= x < w && 0 <= y < h ==> #[trigger] g[x][y] == initial_color(h, y),
    ensures
        count_grid(g, SquareColor::Day) == w * (h - h / 2),
        count_grid(g, SquareColor::Night) == w * (h / 2),
    decreases g.len(),
{
    if g.len() > 0 {
        let d = g.drop_last();
        assert(shaped(d, w - 1, h)) by {
            assert forall|x: int| 0 <= x < w - 1 implies (#[trigger] d[x]).len() == h by {
                assert(d[x] == g[x]);
            }
        }
        assert forall|x: int, y: int| 0 <= x < w - 1 && 0 <= y < h implies #[trigger] d[x][y] == initial_color(h, y) by {
            assert(d[x] == g[x]);
        }
        lemma_initial_counts(d, w - 1, h);
        let col = g.last();
        assert forall|y: int| 0 <= y < col.len() implies #[trigger] col[y] == initial_color(h, y) by {
            assert(col == g[w - 1]);
            assert(g[w - 1][y] == initial_color(h, y));
        }
        lemma_initial_column(col, h);
        assert((w - 1) * (h - h / 2) + (h - h / 2) == w * (h - h / 2)) by (nonlinear_arith);
        assert((w - 1) * (h / 2) + h / 2 == w * (h / 2)) by (nonlinear_arith);
    } else {
        assert(w * (h / 2) == 0 && w * (h - h / 2) == 0) by (nonlinear_arith)
            requires w == 0;
    }
}

} // verus!
