//! Fixed-point arithmetic for the simulation.
//!
//! Every coordinate, velocity and size in the game is an `i64` counting
//! millionths of a unit (`SCALE`). Multiplication of two fixed-point values
//! divides the wide product by `SCALE`, truncating toward zero. Coordinate
//! sums saturate at `FP_MAX`, the edge of the representable playing field,
//! so integration is total and exact.

use vstd::prelude::*;

verus! {

/// Number of fixed-point steps per unit: one step is a millionth of a unit.
pub const SCALE: i64 = 1_000_000;

/// Largest coordinate magnitude the model represents (one million units).
pub const FP_MAX: i64 = 1_000_000_000_000;

/// Largest velocity magnitude any game object ever holds.
pub const VEL_MAX: i64 = 6_000_000_000;

/// Largest time step `tick` accepts (one tenth of a second).
pub const DT_MAX: i64 = 100_000;

/// Largest operand magnitude `fp_mul` accepts without overflowing `i64`
/// in the scaled product.
pub const MUL_MAX: i64 = 3_000_000_000_000;

/// Mathematical absolute value.
pub open spec fn abs_spec(x: int) -> int {
    if x < 0 {
        -x
    } else {
        x
    }
}

/// Fixed-point product: the wide product scaled down by `SCALE`, rounding
/// toward zero (the quotient of the magnitudes, with the sign of the
/// product).
pub open spec fn fp_mul_spec(a: int, b: int) -> int {
    if a * b >= 0 {
        (a * b) / (SCALE as int)
    } else {
        -((-(a * b)) / (SCALE as int))
    }
}

/// Saturating coordinate sum: `a + b` clipped to `[-FP_MAX, FP_MAX]`.
pub open spec fn sat_add_spec(a: int, b: int) -> int {
    if a + b > FP_MAX {
        FP_MAX as int
    } else if a + b < -FP_MAX {
        -FP_MAX as int
    } else {
        a + b
    }
}

/// The magnitude of a fixed-point product is bounded by the scaled product
/// of the operand magnitudes.
pub proof fn lemma_fp_mul_bound(a: int, b: int, ba: int, bb: int)
    requires
        abs_spec(a) <= ba,
        abs_spec(b) <= bb,
        0 <= ba,
        0 <= bb,
    ensures
        abs_spec(fp_mul_spec(a, b)) <= (ba * bb) / (SCALE as int),
{
    assert(abs_spec(a * b) <= ba * bb) by (nonlinear_arith)
        requires
            abs_spec(a) <= ba,
            abs_spec(b) <= bb,
            0 <= ba,
            0 <= bb,
    ;
    if a * b >= 0 {
        vstd::arithmetic::div_mod::lemma_div_is_ordered(a * b, ba * bb, SCALE as int);
        vstd::arithmetic::div_mod::lemma_div_pos_is_pos(a * b, SCALE as int);
    } else {
        vstd::arithmetic::div_mod::lemma_div_is_ordered(-(a * b), ba * bb, SCALE as int);
        vstd::arithmetic::div_mod::lemma_div_pos_is_pos(-(a * b), SCALE as int);
    }
}

/// Fixed-point multiplication, exact to `fp_mul_spec`.
pub fn fp_mul(a: i64, b: i64) -> (r: i64)
    requires
        abs_spec(a as int) <= MUL_MAX,
        abs_spec(b as int) <= MUL_MAX,
    ensures
        r == fp_mul_spec(a as int, b as int),
{
    proof {
        assert(abs_spec((a as int) * (b as int)) <= (MUL_MAX as int) * (MUL_MAX as int))
            by (nonlinear_arith)
            requires
                abs_spec(a as int) <= MUL_MAX,
                abs_spec(b as int) <= MUL_MAX,
        ;
        lemma_fp_mul_bound(a as int, b as int, MUL_MAX as int, MUL_MAX as int);
    }
    let p: i128 = (a as i128) * (b as i128);
    if p >= 0 {
        let q: u128 = (p as u128) / (SCALE as u128);
        q as i64
    } else {
        let q: u128 = ((-p) as u128) / (SCALE as u128);
        proof {
            assert(q <= i64::MAX as u128);
        }
        -(q as i64)
    }
}

/// Saturating coordinate addition, exact to `sat_add_spec`.
pub fn sat_add(a: i64, b: i64) -> (r: i64)
    requires
        abs_spec(a as int) <= 2 * FP_MAX,
        abs_spec(b as int) <= 2 * FP_MAX,
    ensures
        r == sat_add_spec(a as int, b as int),
        abs_spec(r as int) <= FP_MAX,
{
    let s: i64 = a + b;
    if s > FP_MAX {
        FP_MAX
    } else if s < -FP_MAX {
        -FP_MAX
    } else {
        s
    }
}

} // verus!
