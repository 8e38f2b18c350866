//! Stateless collision predicates over the game's fixed-point geometry.
//!
//! Both tests are kept exactly as the game plays them. The circle test
//! compares a squared distance against an unsquared radius sum, and the
//! circle-rectangle test is an expanded-bounding-box test that can report
//! contact near a corner slightly early; neither is "corrected" here, since
//! the game's behaviour is defined by these formulas.

use vstd::prelude::*;

use crate::bird::Bird;
use crate::fixed::{abs_spec, fp_mul, fp_mul_spec, lemma_fp_mul_bound, FP_MAX, SCALE};
use crate::wall::Wall;

verus! {

/// Whether two circles count as colliding: the squared distance between
/// the centres, compared against the plain sum of the radii.
pub open spec fn circles_collide(a: Bird, b: Bird) -> bool {
    fp_mul_spec(a.px - b.px, a.px - b.px) + fp_mul_spec(a.py - b.py, a.py - b.py) < a.radius
        + b.radius
}

/// Whether a circle and a rectangle count as colliding: the per-axis offset
/// of the centres lies within the rectangle expanded by the radius on both
/// axes.
pub open spec fn circle_rect_collide(c: Bird, r: Wall) -> bool {
    let half_w = (r.width as int) / 2;
    let half_h = (r.height as int) / 2;
    &&& !(half_w + c.radius < abs_spec(c.px - r.px))
    &&& !(half_h + c.radius < abs_spec(c.py - r.py))
}

/// Absolute value of a fixed-point scalar.
pub fn abs(x: i64) -> (r: i64)
    requires
        x != i64::MIN,
    ensures
        r == abs_spec(x as int),
{
    if x < 0 {
        -x
    } else {
        x
    }
}

/// The circle-circle test, exactly `circles_collide`.
pub fn collision_circle(a: &Bird, b: &Bird) -> (r: bool)
    requires
        a.wf(),
        b.wf(),
    ensures
        r == circles_collide(*a, *b),
{
    let dx = a.px - b.px;
    let dy = a.py - b.py;
    proof {
        lemma_fp_mul_bound(dx as int, dx as int, 2 * FP_MAX, 2 * FP_MAX);
        lemma_fp_mul_bound(dy as int, dy as int, 2 * FP_MAX, 2 * FP_MAX);
    }
    let dist = fp_mul(dx, dx) + fp_mul(dy, dy);
    dist < a.radius + b.radius
}

/// The circle-rectangle test, exactly `circle_rect_collide`.
pub fn collision_circle_rectange(a: &Bird, b: &Wall) -> (r: bool)
    requires
        a.wf(),
        b.wf(),
    ensures
        r == circle_rect_collide(*a, *b),
{
    let ox = a.px - b.px;
    let oy = a.py - b.py;
    let half_w = ((b.width as u64) / 2) as i64;
    let half_h = ((b.height as u64) / 2) as i64;
    if half_w + a.radius < abs(ox) {
        return false;
    }
    if half_h + a.radius < abs(oy) {
        return false;
    }
    true
}

} // verus!
