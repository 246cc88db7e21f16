//! Fixed-point helpers shared by the grid generator and the escape-time loop.
//!
//! A coordinate is an `i64` whose real value is the integer divided by
//! `SCALE`. Products of two coordinates are formed in `i128` and brought back
//! to coordinate scale by a truncating (round-toward-zero) division by
//! `SCALE`, mirroring how a hardware multiply of the underlying reals would
//! behave.

use vstd::prelude::*;
use crate::SCALE;

verus! {

/// Truncating (round-toward-zero) division of `x` by `SCALE`.
///
/// Spec-level `/` on `int` is Euclidean, so the negative side is written as a
/// negated division of the absolute value.
pub open spec fn tdiv_scale(x: int) -> int {
    if x >= 0 {
        x / (SCALE as int)
    } else {
        -((-x) / (SCALE as int))
    }
}

/// A bound on the input gives the matching bound on the scaled-down result.
pub proof fn lemma_tdiv_scale_bound(x: int, b: int)
    requires
        0 <= b,
        -b <= x <= b,
    ensures
        -(b / (SCALE as int)) <= tdiv_scale(x) <= b / (SCALE as int),
{
    if x >= 0 {
        vstd::arithmetic::div_mod::lemma_div_is_ordered(x, b, SCALE as int);
        vstd::arithmetic::div_mod::lemma_div_pos_is_pos(x, SCALE as int);
    } else {
        vstd::arithmetic::div_mod::lemma_div_is_ordered(-x, b, SCALE as int);
        vstd::arithmetic::div_mod::lemma_div_pos_is_pos(-x, SCALE as int);
    }
}

/// Divide a double-width product by `SCALE`, rounding toward zero.
pub fn div_scale(x: i128) -> (r: i128)
    requires
        -0x7fff_ffff_ffff_ffff_ffff_ffff_ffff_ffff <= x,
    ensures
        r == tdiv_scale(x as int),
{
    if x >= 0 {
        let q: u128 = (x as u128) / (SCALE as u128);
        proof {
            vstd::arithmetic::div_mod::lemma_div_is_ordered(x as int, i128::MAX as int, SCALE as int);
            vstd::arithmetic::div_mod::lemma_div_pos_is_pos(x as int, SCALE as int);
        }
        q as i128
    } else {
        let neg: i128 = -x;
        let q: u128 = (neg as u128) / (SCALE as u128);
        proof {
            vstd::arithmetic::div_mod::lemma_div_is_ordered(neg as int, i128::MAX as int, SCALE as int);
            vstd::arithmetic::div_mod::lemma_div_pos_is_pos(neg as int, SCALE as int);
        }
        -(q as i128)
    }
}

} // verus!
