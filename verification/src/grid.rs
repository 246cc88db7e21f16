//! Grid generator: the pair of coordinate axes that maps pixel columns and
//! rows to fixed-point complex-plane coordinates.
//!
//! An axis is built the way the rendered image expects it: the first element
//! is one endpoint, interior elements are produced by repeatedly adding (or
//! subtracting) a fixed step, and the last element is forced to the other
//! endpoint exactly. Recentering picks the new endpoints directly out of the
//! old axis around the clicked pixel, so a zoomed grid always stays inside
//! the original bounds.

use vstd::prelude::*;
use crate::{SCREEN_HEIGHT, SCREEN_WIDTH};
use crate::escape::COORD_BOUND;

verus! {

/// Left edge of the default view, the real value -2.00.
pub const X_MIN: i64 = -2_000_000_000;

/// Right edge of the default view, the real value 0.47.
pub const X_MAX: i64 = 470_000_000;

/// Bottom edge of the default view, the real value -1.12.
pub const Y_MIN: i64 = -1_120_000_000;

/// Top edge of the default view, the real value 1.12.
pub const Y_MAX: i64 = 1_120_000_000;

/// Horizontal half-window of the zoom rule, in pixels.
pub const ZOOM_HALF_X: usize = 48;

/// Full horizontal zoom window, in pixels.
pub const ZOOM_FULL_X: usize = 96;

/// Vertical half-window of the zoom rule, in pixels.
pub const ZOOM_HALF_Y: usize = 27;

/// Full vertical zoom window, in pixels.
pub const ZOOM_FULL_Y: usize = 54;

/// Mathematical content of a grid: the two axes as sequences.
#[verifier::ext_equal]
pub struct GridView {
    pub x: Seq<i64>,
    pub y: Seq<i64>,
}

/// One viewport: X-axis of `SCREEN_WIDTH` columns, Y-axis of `SCREEN_HEIGHT`
/// rows, both in fixed-point plane coordinates. The Y-axis is stored
/// top-to-bottom, so it runs from `y_max` down to `y_min`.
pub struct Grid {
    pub x: Vec<i64>,
    pub y: Vec<i64>,
}

impl View for Grid {
    type V = GridView;

    open spec fn view(&self) -> GridView {
        GridView { x: self.x@, y: self.y@ }
    }
}

impl Clone for Grid {
    fn clone(&self) -> (res: Grid)
        ensures
            res@ == self@,
    {
        let res = Grid { x: self.x.clone(), y: self.y.clone() };
        proof {
            assert(res@.x =~= self@.x);
            assert(res@.y =~= self@.y);
            assert(res@ =~= self@);
        }
        res
    }
}

/// Every coordinate of the sequence lies within the evaluator's bound.
pub open spec fn coords_bounded(s: Seq<i64>) -> bool {
    forall|i: int| 0 <= i < s.len() ==> -COORD_BOUND <= #[trigger] s[i] <= COORD_BOUND
}

/// The sequence never decreases from left to right.
pub open spec fn monotone_nondec(s: Seq<i64>) -> bool {
    forall|i: int, j: int| 0 <= i <= j < s.len() ==> #[trigger] s[i] <= #[trigger] s[j]
}

/// The sequence never increases from left to right.
pub open spec fn monotone_noninc(s: Seq<i64>) -> bool {
    forall|i: int, j: int| 0 <= i <= j < s.len() ==> #[trigger] s[i] >= #[trigger] s[j]
}

/// A well-formed grid: full-screen axes, bounded coordinates, X-axis
/// non-decreasing and Y-axis (stored top-to-bottom) non-increasing.
pub open spec fn grid_wf(gv: GridView) -> bool {
    &&& gv.x.len() == SCREEN_WIDTH
    &&& gv.y.len() == SCREEN_HEIGHT
    &&& coords_bounded(gv.x)
    &&& coords_bounded(gv.y)
    &&& monotone_nondec(gv.x)
    &&& monotone_noninc(gv.y)
}

/// The step between neighbouring axis values for the range `[lo, hi]` split
/// into `n` columns.
pub open spec fn step_size(lo: int, hi: int, n: int) -> int {
    (hi - lo) / n
}

/// Value of column `i` of a rising axis: the endpoints exactly, interior
/// columns by `i` cumulative additions of the step.
pub open spec fn rising_at(lo: int, hi: int, n: int, i: int) -> int {
    if i == n - 1 {
        hi
    } else {
        lo + i * step_size(lo, hi, n)
    }
}

/// Value of row `i` of a falling axis: `top` first, `bot` last, interior rows
/// by `i` cumulative subtractions of the step.
pub open spec fn falling_at(top: int, bot: int, n: int, i: int) -> int {
    if i == n - 1 {
        bot
    } else {
        top - i * step_size(bot, top, n)
    }
}

/// The whole rising axis as a sequence.
pub open spec fn rising_seq(lo: int, hi: int, n: int) -> Seq<i64> {
    Seq::new(n as nat, |i: int| rising_at(lo, hi, n, i) as i64)
}

/// The whole falling axis as a sequence.
pub open spec fn falling_seq(top: int, bot: int, n: int) -> Seq<i64> {
    Seq::new(n as nat, |i: int| falling_at(top, bot, n, i) as i64)
}

/// Axis monotonicity: for any non-degenerate bounds a rising axis stays
/// within `[lo, hi]`, never decreases, and interior columns differ by
/// exactly one step.
pub proof fn lemma_rising_props(lo: int, hi: int, n: int)
    requires
        lo <= hi,
        2 <= n,
    ensures
        0 <= step_size(lo, hi, n),
        forall|i: int| 0 <= i < n ==> lo <= #[trigger] rising_at(lo, hi, n, i) <= hi,
        forall|i: int| 1 <= i < n - 1 ==> #[trigger] rising_at(lo, hi, n, i) == rising_at(
            lo,
            hi,
            n,
            i - 1,
        ) + step_size(lo, hi, n),
        forall|i: int, j: int| 0 <= i <= j < n ==> #[trigger] rising_at(lo, hi, n, i)
            <= #[trigger] rising_at(lo, hi, n, j),
{
    let s = step_size(lo, hi, n);
    vstd::arithmetic::div_mod::lemma_div_pos_is_pos(hi - lo, n);
    vstd::arithmetic::div_mod::lemma_fundamental_div_mod(hi - lo, n);
    vstd::arithmetic::div_mod::lemma_mod_division_less_than_divisor(hi - lo, n);
    assert(n * s <= hi - lo);
    assert forall|i: int| 0 <= i < n implies lo <= #[trigger] rising_at(lo, hi, n, i) <= hi by {
        if i < n - 1 {
            assert(0 <= i * s <= n * s) by (nonlinear_arith)
                requires
                    0 <= i <= n,
                    0 <= s,
            ;
        }
    }
    assert forall|i: int| 1 <= i < n - 1 implies #[trigger] rising_at(lo, hi, n, i) == rising_at(
        lo,
        hi,
        n,
        i - 1,
    ) + s by {
        assert(i * s == (i - 1) * s + s) by (nonlinear_arith);
    }
    assert forall|i: int, j: int| 0 <= i <= j < n implies #[trigger] rising_at(lo, hi, n, i)
        <= #[trigger] rising_at(lo, hi, n, j) by {
        if j < n - 1 {
            assert(i * s <= j * s) by (nonlinear_arith)
                requires
                    i <= j,
                    0 <= s,
            ;
        }
    }
}

/// Axis monotonicity, falling side: the axis stays within `[bot, top]`,
/// never increases, and interior rows differ by exactly one step.
pub proof fn lemma_falling_props(top: int, bot: int, n: int)
    requires
        bot <= top,
        2 <= n,
    ensures
        0 <= step_size(bot, top, n),
        forall|i: int| 0 <= i < n ==> bot <= #[trigger] falling_at(top, bot, n, i) <= top,
        forall|i: int| 1 <= i < n - 1 ==> #[trigger] falling_at(top, bot, n, i) == falling_at(
            top,
            bot,
            n,
            i - 1,
        ) - step_size(bot, top, n),
        forall|i: int, j: int| 0 <= i <= j < n ==> #[trigger] falling_at(top, bot, n, i)
            >= #[trigger] falling_at(top, bot, n, j),
{
    let s = step_size(bot, top, n);
    vstd::arithmetic::div_mod::lemma_div_pos_is_pos(top - bot, n);
    vstd::arithmetic::div_mod::lemma_fundamental_div_mod(top - bot, n);
    vstd::arithmetic::div_mod::lemma_mod_division_less_than_divisor(top - bot, n);
    assert(n * s <= top - bot);
    assert forall|i: int| 0 <= i < n implies bot <= #[trigger] falling_at(top, bot, n, i)
        <= top by {
        if i < n - 1 {
            assert(0 <= i * s <= n * s) by (nonlinear_arith)
                requires
                    0 <= i <= n,
                    0 <= s,
            ;
        }
    }
    assert forall|i: int| 1 <= i < n - 1 implies #[trigger] falling_at(top, bot, n, i)
        == falling_at(top, bot, n, i - 1) - s by {
        assert(i * s == (i - 1) * s + s) by (nonlinear_arith);
    }
    assert forall|i: int, j: int| 0 <= i <= j < n implies #[trigger] falling_at(top, bot, n, i)
        >= #[trigger] falling_at(top, bot, n, j) by {
        if j < n - 1 {
            assert(i * s <= j * s) by (nonlinear_arith)
                requires
                    i <= j,
                    0 <= s,
            ;
        }
    }
}

/// Build a rising axis from `lo` to `hi` with `n` columns.
pub fn axis_rising(lo: i64, hi: i64, n: usize) -> (v: Vec<i64>)
    requires
        2 <= n,
        -COORD_BOUND <= lo <= hi <= COORD_BOUND,
    ensures
        v@ == rising_seq(lo as int, hi as int, n as int),
        v@.len() == n,
        v@[0] == lo,
        v@[n - 1] == hi,
        forall|i: int| 0 <= i < n ==> lo <= #[trigger] v@[i] <= hi,
        monotone_nondec(v@),
{
    proof {
        lemma_rising_props(lo as int, hi as int, n as int);
    }
    let diff: i64 = hi - lo;
    let dx: i64 = ((diff as u64) / (n as u64)) as i64;
    proof {
        vstd::arithmetic::div_mod::lemma_div_pos_is_pos(diff as int, n as int);
        vstd::arithmetic::div_mod::lemma_div_is_ordered(diff as int, 2 * COORD_BOUND as int,
            n as int);
        assert(dx == step_size(lo as int, hi as int, n as int));
    }
    let mut v: Vec<i64> = Vec::new();
    v.push(lo);
    let mut k: usize = 1;
    while k < n - 1
        invariant
            2 <= n,
            1 <= k <= n - 1,
            -COORD_BOUND <= lo <= hi <= COORD_BOUND,
            dx == step_size(lo as int, hi as int, n as int),
            v@.len() == k,
            forall|t: int| 0 <= t < k ==> v@[t] == rising_at(lo as int, hi as int, n as int, t),
        decreases n - 1 - k,
    {
        proof {
            lemma_rising_props(lo as int, hi as int, n as int);
            assert(rising_at(lo as int, hi as int, n as int, k as int) == rising_at(lo as int,
                hi as int, n as int, k as int - 1) + dx);
        }
        let last: i64 = v[k - 1];
        v.push(last + dx);
        k = k + 1;
    }
    v.push(hi);
    proof {
        assert(v@ =~= rising_seq(lo as int, hi as int, n as int));
    }
    v
}

/// Build a falling axis from `top` down to `bot` with `n` rows.
pub fn axis_falling(top: i64, bot: i64, n: usize) -> (v: Vec<i64>)
    requires
        2 <= n,
        -COORD_BOUND <= bot <= top <= COORD_BOUND,
    ensures
        v@ == falling_seq(top as int, bot as int, n as int),
        v@.len() == n,
        v@[0] == top,
        v@[n - 1] == bot,
        forall|i: int| 0 <= i < n ==> bot <= #[trigger] v@[i] <= top,
        monotone_noninc(v@),
{
    proof {
        lemma_falling_props(top as int, bot as int, n as int);
    }
    let diff: i64 = top - bot;
    let dy: i64 = ((diff as u64) / (n as u64)) as i64;
    proof {
        vstd::arithmetic::div_mod::lemma_div_pos_is_pos(diff as int, n as int);
        vstd::arithmetic::div_mod::lemma_div_is_ordered(diff as int, 2 * COORD_BOUND as int,
            n as int);
        assert(dy == step_size(bot as int, top as int, n as int));
    }
    let mut v: Vec<i64> = Vec::new();
    v.push(top);
    let mut k: usize = 1;
    while k < n - 1
        invariant
            2 <= n,
            1 <= k <= n - 1,
            -COORD_BOUND <= bot <= top <= COORD_BOUND,
            dy == step_size(bot as int, top as int, n as int),
            v@.len() == k,
            forall|t: int| 0 <= t < k ==> v@[t] == falling_at(top as int, bot as int, n as int, t),
        decreases n - 1 - k,
    {
        proof {
            lemma_falling_props(top as int, bot as int, n as int);
            assert(falling_at(top as int, bot as int, n as int, k as int) == falling_at(top as int,
                bot as int, n as int, k as int - 1) - dy);
        }
        let last: i64 = v[k - 1];
        v.push(last - dy);
        k = k + 1;
    }
    v.push(bot);
    proof {
        assert(v@ =~= falling_seq(top as int, bot as int, n as int));
    }
    v
}

/// Build the full default view.
pub fn init_og_space() -> (g: Grid)
    ensures
        g@.x == rising_seq(X_MIN as int, X_MAX as int, SCREEN_WIDTH as int),
        g@.y == falling_seq(Y_MAX as int, Y_MIN as int, SCREEN_HEIGHT as int),
        grid_wf(g@),
        g@.x[0] == X_MIN,
        g@.x[SCREEN_WIDTH - 1] == X_MAX,
        g@.y[0] == Y_MAX,
        g@.y[SCREEN_HEIGHT - 1] == Y_MIN,
{
    let x = axis_rising(X_MIN, X_MAX, SCREEN_WIDTH);
    let y = axis_falling(Y_MAX, Y_MIN, SCREEN_HEIGHT);
    Grid { x, y }
}

/// A click column the zoom rule can handle: on screen, and outside the one
/// column whose centered window would step past the right edge.
pub open spec fn click_x_ok(cx: int) -> bool {
    &&& 0 <= cx < SCREEN_WIDTH
    &&& (cx < ZOOM_HALF_X || cx > SCREEN_WIDTH - ZOOM_HALF_X || cx + ZOOM_HALF_X < SCREEN_WIDTH)
}

/// A click row the zoom rule can handle, mirroring `click_x_ok`.
pub open spec fn click_y_ok(cy: int) -> bool {
    &&& 0 <= cy < SCREEN_HEIGHT
    &&& (cy < ZOOM_HALF_Y || cy > SCREEN_HEIGHT - ZOOM_HALF_Y || cy + ZOOM_HALF_Y < SCREEN_HEIGHT)
}

/// New left bound after a click on column `cx`.
pub open spec fn zoom_x_min(xs: Seq<i64>, cx: int) -> i64 {
    if cx < ZOOM_HALF_X {
        xs[cx]
    } else if cx > SCREEN_WIDTH - ZOOM_HALF_X {
        xs[cx - ZOOM_FULL_X]
    } else {
        xs[cx - ZOOM_HALF_X]
    }
}

/// New right bound after a click on column `cx`.
pub open spec fn zoom_x_max(xs: Seq<i64>, cx: int) -> i64 {
    if cx < ZOOM_HALF_X {
        xs[cx + ZOOM_FULL_X]
    } else if cx > SCREEN_WIDTH - ZOOM_HALF_X {
        xs[cx]
    } else {
        xs[cx + ZOOM_HALF_X]
    }
}

/// New top bound after a click on row `cy`.
pub open spec fn zoom_y_max(ys: Seq<i64>, cy: int) -> i64 {
    if cy > SCREEN_HEIGHT - ZOOM_HALF_Y {
        ys[cy - ZOOM_FULL_Y]
    } else if cy < ZOOM_HALF_Y {
        ys[cy]
    } else {
        ys[cy - ZOOM_HALF_Y]
    }
}

/// New bottom bound after a click on row `cy`.
pub open spec fn zoom_y_min(ys: Seq<i64>, cy: int) -> i64 {
    if cy > SCREEN_HEIGHT - ZOOM_HALF_Y {
        ys[cy]
    } else if cy < ZOOM_HALF_Y {
        ys[cy + ZOOM_FULL_Y]
    } else {
        ys[cy + ZOOM_HALF_Y]
    }
}

/// The grid a click recenters to: fresh axes between the bounds picked out
/// of the old axes around the clicked pixel. Each axis depends only on its
/// own click coordinate.
pub open spec fn zoom_grid(gv: GridView, cx: int, cy: int) -> GridView {
    GridView {
        x: rising_seq(
            zoom_x_min(gv.x, cx) as int,
            zoom_x_max(gv.x, cx) as int,
            SCREEN_WIDTH as int,
        ),
        y: falling_seq(
            zoom_y_max(gv.y, cy) as int,
            zoom_y_min(gv.y, cy) as int,
            SCREEN_HEIGHT as int,
        ),
    }
}

/// Derive the zoomed-in view around the clicked pixel.
pub fn init_new_space(old_grid: &Grid, click_x: usize, click_y: usize) -> (g: Grid)
    requires
        grid_wf(old_grid@),
        click_x_ok(click_x as int),
        click_y_ok(click_y as int),
    ensures
        g@ == zoom_grid(old_grid@, click_x as int, click_y as int),
        grid_wf(g@),
{
    let nxmin: i64;
    let nxmax: i64;
    if click_x < ZOOM_HALF_X {
        nxmin = old_grid.x[click_x];
        nxmax = old_grid.x[click_x + ZOOM_FULL_X];
    } else if click_x > SCREEN_WIDTH - ZOOM_HALF_X {
        nxmax = old_grid.x[click_x];
        nxmin = old_grid.x[click_x - ZOOM_FULL_X];
    } else {
        nxmin = old_grid.x[click_x - ZOOM_HALF_X];
        nxmax = old_grid.x[click_x + ZOOM_HALF_X];
    }
    let nymin: i64;
    let nymax: i64;
    if click_y > SCREEN_HEIGHT - ZOOM_HALF_Y {
        nymin = old_grid.y[click_y];
        nymax = old_grid.y[click_y - ZOOM_FULL_Y];
    } else if click_y < ZOOM_HALF_Y {
        nymax = old_grid.y[click_y];
        nymin = old_grid.y[click_y + ZOOM_FULL_Y];
    } else {
        nymax = old_grid.y[click_y - ZOOM_HALF_Y];
        nymin = old_grid.y[click_y + ZOOM_HALF_Y];
    }
    proof {
        assert(nxmin == zoom_x_min(old_grid@.x, click_x as int));
        assert(nxmax == zoom_x_max(old_grid@.x, click_x as int));
        assert(nymin == zoom_y_min(old_grid@.y, click_y as int));
        assert(nymax == zoom_y_max(old_grid@.y, click_y as int));
        assert(nxmin <= nxmax);
        assert(nymin <= nymax);
    }
    let x = axis_rising(nxmin, nxmax, SCREEN_WIDTH);
    let y = axis_falling(nymax, nymin, SCREEN_HEIGHT);
    let g = Grid { x, y };
    proof {
        assert(g@ =~= zoom_grid(old_grid@, click_x as int, click_y as int));
    }
    g
}

} // verus!
