//! Fractal evaluator: escape counts for every pixel of a grid, mapped
//! through the color table into a flat RGBA byte buffer.

use vstd::prelude::*;
use crate::NUM_COLORS;
use crate::escape::{escape_time, spec_escape_time};
use crate::grid::{coords_bounded, Grid};
use crate::palette::{palette_opaque, Color};

verus! {

/// Index into the color table for escape count `n`: the count modulo the
/// table size.
pub open spec fn color_index(n: nat) -> int {
    (n % (NUM_COLORS as nat)) as int
}

/// The four bytes of pixel `(column i, row j)` in `screen` hold the color
/// selected by that pixel's escape count.
pub open spec fn pixel_ok(
    screen: Seq<u8>,
    xs: Seq<i64>,
    ys: Seq<i64>,
    colors: Seq<Color>,
    i: int,
    j: int,
) -> bool {
    let off = 4 * (j * xs.len() + i);
    let c = colors[color_index(spec_escape_time(xs[i] as int, ys[j] as int))];
    &&& screen[off] == c.r
    &&& screen[off + 1] == c.g
    &&& screen[off + 2] == c.b
    &&& screen[off + 3] == c.a
}

/// A fully rendered buffer: the right length, and every pixel colored by
/// its escape count.
pub open spec fn rendered(screen: Seq<u8>, xs: Seq<i64>, ys: Seq<i64>, colors: Seq<Color>) -> bool {
    &&& screen.len() == 4 * xs.len() * ys.len()
    &&& forall|i: int, j: int| 0 <= i < xs.len() && 0 <= j < ys.len() ==> pixel_ok(
        screen,
        xs,
        ys,
        colors,
        i,
        j,
    )
}

/// All pixels strictly before `(row j, column i)` in row-major order are
/// already colored.
pub open spec fn prefix_rendered(
    screen: Seq<u8>,
    xs: Seq<i64>,
    ys: Seq<i64>,
    colors: Seq<Color>,
    j: int,
    i: int,
) -> bool {
    forall|j2: int, i2: int|
        0 <= j2 < ys.len() && 0 <= i2 < xs.len() && (j2 < j || (j2 == j && i2 < i)) ==> pixel_ok(
            screen,
            xs,
            ys,
            colors,
            i2,
            j2,
        )
}

/// Fill the buffer with zero bytes, except that every fourth byte (the
/// alpha channel) is forced to fully opaque.
pub fn clear(screen: &mut Vec<u8>)
    ensures
        final(screen)@.len() == old(screen)@.len(),
        forall|k: int| 0 <= k < final(screen)@.len() ==> final(screen)@[k] == (if k % 4 == 3 {
            255u8
        } else {
            0u8
        }),
{
    let mut k: usize = 0;
    while k < screen.len()
        invariant
            k <= screen@.len(),
            screen@.len() == old(screen)@.len(),
            forall|t: int| 0 <= t < k ==> screen@[t] == (if t % 4 == 3 {
                255u8
            } else {
                0u8
            }),
        decreases screen@.len() - k,
    {
        if k % 4 == 3 {
            screen[k] = 255;
        } else {
            screen[k] = 0;
        }
        k = k + 1;
    }
}

/// Pick the color for escape count `n` out of the table.
pub fn select_color(colors: &Vec<Color>, n: u32) -> (c: Color)
    requires
        colors@.len() == NUM_COLORS,
    ensures
        c == colors@[color_index(n as nat)],
{
    let idx: usize = (n as usize) % NUM_COLORS;
    colors[idx]
}

/// Pixels of one row come before pixels of a later row, and earlier pixels
/// of the same row come first.
proof fn lemma_row_major_lt(w: int, i1: int, j1: int, i2: int, j2: int)
    by (nonlinear_arith)
    requires
        0 <= i1 < w,
        0 <= i2,
        0 <= j1,
        0 <= j2,
        j1 < j2 || (j1 == j2 && i1 < i2),
    ensures
        j1 * w + i1 < j2 * w + i2,
{
}

/// Every pixel's row-major position lies inside the `w * h` pixel area.
proof fn lemma_pixel_in_area(w: int, h: int, i: int, j: int)
    by (nonlinear_arith)
    requires
        0 <= i < w,
        0 <= j < h,
    ensures
        0 <= j * w + i,
        j * w + i < w * h,
        0 <= 4 * (j * w + i),
        4 * (j * w + i) + 4 <= 4 * w * h,
{
}

/// Render the grid: for every pixel, run the escape-time iteration on its
/// plane coordinate and write the selected color's four bytes at its
/// row-major offset. The buffer keeps its `4 * width * height` length.
pub fn mandelbrot(grid: &Grid, screen: &mut Vec<u8>, colors: &Vec<Color>)
    requires
        coords_bounded(grid@.x),
        coords_bounded(grid@.y),
        old(screen)@.len() == 4 * grid@.x.len() * grid@.y.len(),
        colors@.len() == NUM_COLORS,
    ensures
        rendered(final(screen)@, grid@.x, grid@.y, colors@),
{
    clear(screen);
    let w: usize = grid.x.len();
    let h: usize = grid.y.len();
    let buf_len: usize = screen.len();
    let mut off: usize = 0;
    let mut j: usize = 0;
    while j < h
        invariant
            j <= h,
            w == grid@.x.len(),
            h == grid@.y.len(),
            coords_bounded(grid@.x),
            coords_bounded(grid@.y),
            colors@.len() == NUM_COLORS,
            screen@.len() == 4 * w * h,
            screen@.len() == buf_len,
            off == 4 * (j * w),
            prefix_rendered(screen@, grid@.x, grid@.y, colors@, j as int, 0),
        decreases h - j,
    {
        let mut i: usize = 0;
        while i < w
            invariant
                i <= w,
                j < h,
                w == grid@.x.len(),
                h == grid@.y.len(),
                coords_bounded(grid@.x),
                coords_bounded(grid@.y),
                colors@.len() == NUM_COLORS,
                screen@.len() == 4 * w * h,
                screen@.len() == buf_len,
                off == 4 * (j * w + i),
                prefix_rendered(screen@, grid@.x, grid@.y, colors@, j as int, i as int),
            decreases w - i,
        {
            let ghost screen0 = screen@;
            proof {
                lemma_pixel_in_area(w as int, h as int, i as int, j as int);
            }
            let n: u32 = escape_time(grid.x[i], grid.y[j]);
            let c: Color = select_color(colors, n);
            screen[off] = c.r;
            screen[off + 1] = c.g;
            screen[off + 2] = c.b;
            screen[off + 3] = c.a;
            proof {
                assert forall|j2: int, i2: int|
                    0 <= j2 < h && 0 <= i2 < w && (j2 < j || (j2 == j && i2 < i)) implies pixel_ok(
                    screen@,
                    grid@.x,
                    grid@.y,
                    colors@,
                    i2,
                    j2,
                ) by {
                    assert(pixel_ok(screen0, grid@.x, grid@.y, colors@, i2, j2));
                    lemma_row_major_lt(w as int, i2, j2, i as int, j as int);
                }
                assert(pixel_ok(screen@, grid@.x, grid@.y, colors@, i as int, j as int));
            }
            off = off + 4;
            i = i + 1;
        }
        proof {
            assert((j + 1) * w == j * w + w) by (nonlinear_arith);
        }
        j = j + 1;
    }
}

/// Buffer opacity: a render with a palette whose entries are all opaque
/// leaves every fourth byte (each pixel's alpha channel) at 255. A palette
/// with a translucent entry would put that entry's alpha there instead.
pub proof fn lemma_rendered_opaque(screen: Seq<u8>, xs: Seq<i64>, ys: Seq<i64>, colors: Seq<Color>)
    requires
        rendered(screen, xs, ys, colors),
        colors.len() == NUM_COLORS,
        palette_opaque(colors),
    ensures
        forall|k: int| 0 <= k < screen.len() && k % 4 == 3 ==> #[trigger] screen[k] == 255,
{
    let w = xs.len() as int;
    let h = ys.len() as int;
    assert forall|k: int| 0 <= k < screen.len() && k % 4 == 3 implies #[trigger] screen[k]
        == 255 by {
        let m = k / 4;
        vstd::arithmetic::div_mod::lemma_fundamental_div_mod(k, 4);
        assert(k == 4 * m + 3);
        assert(0 < w && 0 < h) by (nonlinear_arith)
            requires
                0 <= w,
                0 <= h,
                0 <= k < 4 * w * h,
        ;
        let j = m / w;
        let i = m % w;
        vstd::arithmetic::div_mod::lemma_fundamental_div_mod(m, w);
        vstd::arithmetic::div_mod::lemma_mod_division_less_than_divisor(m, w);
        assert(m == w * j + i);
        assert(m < w * h) by (nonlinear_arith)
            requires
                k == 4 * m + 3,
                k < 4 * w * h,
        ;
        assert(j < h) by (nonlinear_arith)
            requires
                m == w * j + i,
                0 <= i < w,
                m < w * h,
                0 <= j,
        ;
        assert(j * w + i == m) by (nonlinear_arith)
            requires
                m == w * j + i,
        ;
        assert(pixel_ok(screen, xs, ys, colors, i, j));
        assert(screen[4 * m + 3] == colors[color_index(
            spec_escape_time(xs[i] as int, ys[j] as int),
        )].a);
    }
}

} // verus!
