//! Escape-time evaluation of the Mandelbrot iteration `z <- z*z + c`.
//!
//! The iteration runs on fixed-point coordinates (see `fixed`): squares are
//! taken in `i128` and scaled back down, and a point counts as escaped once
//! `|z|^2 > 4`, that is once the raw square sum exceeds `4 * SCALE * SCALE`.

use vstd::prelude::*;
use crate::{MAX_ITERATION, SCALE};
use crate::fixed::{div_scale, lemma_tdiv_scale_bound, tdiv_scale};

verus! {

/// Raw square-sum threshold standing for `|z|^2 > 4.0`.
pub const ESCAPE_THRESHOLD: i128 = 4_000_000_000_000_000_000;

/// Largest coordinate magnitude the evaluator accepts, the real value 3.0.
/// Every grid the library builds stays well inside it.
pub const COORD_BOUND: i64 = 3_000_000_000;

/// Magnitude the iterates themselves can reach before the loop stops:
/// one step from a not-yet-escaped `z` adds at most `4.0` to a coordinate
/// of `c`, so `7.0` covers every intermediate value.
pub const ITERATE_BOUND: i64 = 7_000_000_000;

/// Has the iterate `(zr, zi)` left the escape radius?
pub open spec fn escaped(zr: int, zi: int) -> bool {
    zr * zr + zi * zi > ESCAPE_THRESHOLD as int
}

/// Real part of one Mandelbrot step from `(zr, zi)` with parameter `cr`.
pub open spec fn step_re(zr: int, zi: int, cr: int) -> int {
    tdiv_scale(zr * zr - zi * zi) + cr
}

/// Imaginary part of one Mandelbrot step from `(zr, zi)` with parameter `ci`.
pub open spec fn step_im(zr: int, zi: int, ci: int) -> int {
    tdiv_scale(2 * zr * zi) + ci
}

/// Number of steps the iteration starting at `(zr, zi)` takes before it
/// escapes, stopping after `fuel` steps at the latest.
pub open spec fn escape_steps(zr: int, zi: int, cr: int, ci: int, fuel: nat) -> nat
    decreases fuel,
{
    if fuel == 0 {
        0
    } else if escaped(zr, zi) {
        0
    } else {
        1 + escape_steps(step_re(zr, zi, cr), step_im(zr, zi, ci), cr, ci, (fuel - 1) as nat)
    }
}

/// The escape count of the plane point `(cr, ci)`: steps from `z = 0`, capped
/// at `MAX_ITERATION`.
pub open spec fn spec_escape_time(cr: int, ci: int) -> nat {
    escape_steps(0, 0, cr, ci, MAX_ITERATION as nat)
}

/// The step count never exceeds the fuel it was given.
pub proof fn lemma_escape_steps_le_fuel(zr: int, zi: int, cr: int, ci: int, fuel: nat)
    ensures
        escape_steps(zr, zi, cr, ci, fuel) <= fuel,
    decreases fuel,
{
    if fuel > 0 && !escaped(zr, zi) {
        lemma_escape_steps_le_fuel(step_re(zr, zi, cr), step_im(zr, zi, ci), cr, ci, (fuel - 1) as nat);
    }
}

/// Every escape count is an integer in `[0, MAX_ITERATION]`.
pub proof fn lemma_escape_time_bounded(cr: int, ci: int)
    ensures
        0 <= spec_escape_time(cr, ci) <= MAX_ITERATION,
{
    lemma_escape_steps_le_fuel(0, 0, cr, ci, MAX_ITERATION as nat);
}

/// From the origin with `c = 0` the iterate stays at the origin, so the
/// count always runs to the full fuel.
pub proof fn lemma_origin_steps(fuel: nat)
    ensures
        escape_steps(0, 0, 0, 0, fuel) == fuel,
    decreases fuel,
{
    if fuel > 0 {
        assert(!escaped(0, 0));
        assert(step_re(0, 0, 0) == 0);
        assert(step_im(0, 0, 0) == 0);
        lemma_origin_steps((fuel - 1) as nat);
    }
}

/// The plane point `(0, 0)` never escapes: its count is the iteration cap.
pub proof fn lemma_origin_never_escapes()
    ensures
        spec_escape_time(0, 0) == MAX_ITERATION,
{
    lemma_origin_steps(MAX_ITERATION as nat);
}

/// The plane point `(2, 2)` lies outside the escape radius, so its first
/// iterate `z = c` already escapes: its count is 1.
pub proof fn lemma_two_two_escapes_at_one()
    ensures
        spec_escape_time(2 * SCALE as int, 2 * SCALE as int) == 1,
{
    let c: int = 2 * SCALE as int;
    assert(!escaped(0, 0));
    assert(step_re(0, 0, c) == c);
    assert(step_im(0, 0, c) == c);
    assert(c * c + c * c == 8_000_000_000_000_000_000) by (nonlinear_arith)
        requires
            c == 2_000_000_000,
    ;
    assert(escaped(c, c));
    assert(escape_steps(c, c, c, c, (MAX_ITERATION - 1) as nat) == 0);
}

/// Compute the escape count of `(cr, ci)`.
pub fn escape_time(cr: i64, ci: i64) -> (n: u32)
    requires
        -COORD_BOUND <= cr <= COORD_BOUND,
        -COORD_BOUND <= ci <= COORD_BOUND,
    ensures
        n == spec_escape_time(cr as int, ci as int),
        n <= MAX_ITERATION,
{
    let mut zr: i64 = 0;
    let mut zi: i64 = 0;
    let mut it: u32 = 0;
    while it < MAX_ITERATION
        invariant
            it <= MAX_ITERATION,
            -COORD_BOUND <= cr <= COORD_BOUND,
            -COORD_BOUND <= ci <= COORD_BOUND,
            -ITERATE_BOUND <= zr <= ITERATE_BOUND,
            -ITERATE_BOUND <= zi <= ITERATE_BOUND,
            spec_escape_time(cr as int, ci as int) == it + escape_steps(
                zr as int,
                zi as int,
                cr as int,
                ci as int,
                (MAX_ITERATION - it) as nat,
            ),
        ensures
            it <= MAX_ITERATION,
            spec_escape_time(cr as int, ci as int) == it,
        decreases MAX_ITERATION - it,
    {
        let zr_w: i128 = zr as i128;
        let zi_w: i128 = zi as i128;
        proof {
            assert(0 <= zr_w * zr_w <= 49_000_000_000_000_000_000) by (nonlinear_arith)
                requires
                    -7_000_000_000 <= zr_w <= 7_000_000_000,
            ;
            assert(0 <= zi_w * zi_w <= 49_000_000_000_000_000_000) by (nonlinear_arith)
                requires
                    -7_000_000_000 <= zi_w <= 7_000_000_000,
            ;
        }
        let sq_sum: i128 = zr_w * zr_w + zi_w * zi_w;
        if sq_sum > ESCAPE_THRESHOLD {
            proof {
                assert(escaped(zr as int, zi as int));
                assert(escape_steps(zr as int, zi as int, cr as int, ci as int,
                    (MAX_ITERATION - it) as nat) == 0);
            }
            break;
        }
        // Not escaped: zr^2 + zi^2 <= 4, so each square and the cross term
        // 2*zr*zi are bounded by 4 in real value, and one step lands within
        // ITERATE_BOUND again.
        proof {
            assert(2 * zr_w * zi_w <= zr_w * zr_w + zi_w * zi_w) by (nonlinear_arith);
            assert(-(zr_w * zr_w + zi_w * zi_w) <= 2 * zr_w * zi_w) by (nonlinear_arith);
            assert(zr_w as int == zr as int && zi_w as int == zi as int);
            lemma_tdiv_scale_bound(zr as int * zr as int - zi as int * zi as int,
                ESCAPE_THRESHOLD as int);
            lemma_tdiv_scale_bound(2 * (zr as int) * (zi as int), ESCAPE_THRESHOLD as int);
        }
        let re_sq_diff: i128 = zr_w * zr_w - zi_w * zi_w;
        let cross: i128 = 2 * zr_w * zi_w;
        let new_zr: i64 = (div_scale(re_sq_diff) + cr as i128) as i64;
        let new_zi: i64 = (div_scale(cross) + ci as i128) as i64;
        proof {
            assert(new_zr as int == step_re(zr as int, zi as int, cr as int));
            assert(new_zi as int == step_im(zr as int, zi as int, ci as int));
            assert(escape_steps(zr as int, zi as int, cr as int, ci as int,
                (MAX_ITERATION - it) as nat) == 1 + escape_steps(new_zr as int, new_zi as int,
                cr as int, ci as int, (MAX_ITERATION - it - 1) as nat));
        }
        zr = new_zr;
        zi = new_zi;
        it = it + 1;
    }
    it
}

} // verus!
