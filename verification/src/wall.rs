//! The moving hazard: a rectangle that scrolls across the field at a
//! constant velocity.

use vstd::prelude::*;

use crate::entropy::fresh_id;
use crate::fixed::{
    abs_spec, fp_mul, fp_mul_spec, lemma_fp_mul_bound, sat_add, sat_add_spec, DT_MAX, FP_MAX,
    SCALE, VEL_MAX,
};

verus! {

/// A wall: one simulated rectangular hazard.
#[derive(Debug, Clone, Copy, PartialEq, Eq, Structural)]
pub struct Wall {
    pub id: u128,
    pub px: i64,
    pub py: i64,
    pub vx: i64,
    pub vy: i64,
    pub width: i64,
    pub height: i64,
}

impl Wall {
    /// All coordinates on the playing field, all speeds and both sides
    /// within the model's bounds.
    pub open spec fn wf(self) -> bool {
        &&& abs_spec(self.px as int) <= FP_MAX
        &&& abs_spec(self.py as int) <= FP_MAX
        &&& abs_spec(self.vx as int) <= VEL_MAX
        &&& abs_spec(self.vy as int) <= VEL_MAX
        &&& 0 <= self.width <= SCALE
        &&& 0 <= self.height <= SCALE
    }

    /// The x position one step of `dt` gives this wall.
    pub open spec fn stepped_px(self, dt: i64) -> int {
        sat_add_spec(self.px as int, fp_mul_spec(self.vx as int, dt as int))
    }

    /// The y position one step of `dt` gives this wall.
    pub open spec fn stepped_py(self, dt: i64) -> int {
        sat_add_spec(self.py as int, fp_mul_spec(self.vy as int, dt as int))
    }

    /// The wall `dt` later: moved by `velocity * dt` on each axis,
    /// saturating at the field edge; everything else kept.
    pub open spec fn stepped(self, dt: i64) -> Wall {
        Wall { px: self.stepped_px(dt) as i64, py: self.stepped_py(dt) as i64, ..self }
    }

    /// A new wall with a fresh random id.
    pub fn new(pos: (i64, i64), vel: (i64, i64), width: i64, height: i64) -> (w: Wall)
        requires
            abs_spec(pos.0 as int) <= FP_MAX,
            abs_spec(pos.1 as int) <= FP_MAX,
            abs_spec(vel.0 as int) <= VEL_MAX,
            abs_spec(vel.1 as int) <= VEL_MAX,
            0 <= width <= SCALE,
            0 <= height <= SCALE,
        ensures
            w.px == pos.0 && w.py == pos.1,
            w.vx == vel.0 && w.vy == vel.1,
            w.width == width && w.height == height,
            w.wf(),
    {
        Wall {
            id: fresh_id(),
            px: pos.0,
            py: pos.1,
            vx: vel.0,
            vy: vel.1,
            width,
            height,
        }
    }

    /// The id this wall was created with.
    pub fn id(&self) -> (r: u128)
        ensures
            r == self.id,
    {
        self.id
    }

    /// One physics step: the wall moves by `velocity * dt` on each axis.
    pub fn update(&mut self, dt: i64)
        requires
            old(self).wf(),
            0 < dt <= DT_MAX,
        ensures
            final(self).wf(),
            *final(self) == old(self).stepped(dt),
    {
        let dx = fp_mul(self.vx, dt);
        let dy = fp_mul(self.vy, dt);
        proof {
            lemma_fp_mul_bound(old(self).vx as int, dt as int, VEL_MAX as int, DT_MAX as int);
            lemma_fp_mul_bound(old(self).vy as int, dt as int, VEL_MAX as int, DT_MAX as int);
        }
        self.px = sat_add(self.px, dx);
        self.py = sat_add(self.py, dy);
    }
}

} // verus!
