//! The player-controlled entity: a circle with gravity, a jump intent, and
//! an active flag that goes false for good on its first collision.

use vstd::prelude::*;

use crate::entropy::fresh_id;
use crate::fixed::{
    abs_spec, fp_mul, fp_mul_spec, lemma_fp_mul_bound, sat_add, sat_add_spec, DT_MAX, FP_MAX,
    SCALE, VEL_MAX,
};

verus! {

/// Upward impulse factor applied on a jump, in whole units.
pub const JUMP_FACTOR: i64 = 30;

/// Factor of `gravity * dt` that caps upward velocity.
pub const VY_CAP_FACTOR: i64 = 60;

/// A bird: one simulated, player-controlled circle.
#[derive(Debug, Clone, Copy, PartialEq, Eq, Structural)]
pub struct Bird {
    pub id: u128,
    pub px: i64,
    pub py: i64,
    pub vx: i64,
    pub vy: i64,
    /// Radius of the visual circle.
    pub radius: i64,
    /// True if the bird jumps on the next step.
    pub jump: bool,
    /// False once the bird has collided; a dead bird is frozen in place.
    pub active: bool,
}

impl Bird {
    /// All coordinates on the playing field, all speeds and the radius
    /// within the model's bounds.
    pub open spec fn wf(self) -> bool {
        &&& abs_spec(self.px as int) <= FP_MAX
        &&& abs_spec(self.py as int) <= FP_MAX
        &&& abs_spec(self.vx as int) <= VEL_MAX
        &&& abs_spec(self.vy as int) <= VEL_MAX
        &&& 0 <= self.radius <= SCALE
    }

    /// The vertical velocity one step of `dt` gives an active bird:
    /// a jump cancels any downward component and adds an upward impulse of
    /// `JUMP_FACTOR * gravity * dt`; otherwise gravity pulls by
    /// `gravity * dt`; the result is clamped to
    /// `[-SCALE, VY_CAP_FACTOR * gravity * dt]`.
    pub open spec fn stepped_vy(self, dt: i64) -> int {
        let impulse = fp_mul_spec(fp_mul_spec((JUMP_FACTOR * SCALE) as int, SCALE as int), dt as int);
        let cap = fp_mul_spec(fp_mul_spec((VY_CAP_FACTOR * SCALE) as int, SCALE as int), dt as int);
        let raw = if self.jump {
            (if self.vy < 0 { 0int } else { self.vy as int }) + impulse
        } else {
            self.vy - fp_mul_spec(SCALE as int, dt as int)
        };
        let floored = if raw < -(SCALE as int) { -(SCALE as int) } else { raw };
        if floored > cap { cap } else { floored }
    }

    /// The x position one step of `dt` gives an active bird.
    pub open spec fn stepped_px(self, dt: i64) -> int {
        sat_add_spec(self.px as int, fp_mul_spec(self.vx as int, dt as int))
    }

    /// The y position one step of `dt` gives an active bird, from the
    /// already-updated vertical velocity.
    pub open spec fn stepped_py(self, dt: i64) -> int {
        sat_add_spec(self.py as int, fp_mul_spec(self.stepped_vy(dt), dt as int))
    }

    /// The bird `dt` later, before any collision test: an inactive bird is
    /// frozen; an active one gets the new vertical velocity, moves by
    /// `velocity * dt`, and spends its jump intent.
    pub open spec fn stepped(self, dt: i64) -> Bird {
        if !self.active {
            self
        } else {
            Bird {
                px: self.stepped_px(dt) as i64,
                py: self.stepped_py(dt) as i64,
                vy: self.stepped_vy(dt) as i64,
                jump: false,
                ..self
            }
        }
    }

    /// A new bird with a fresh random id, not jumping, alive.
    pub fn new(pos: (i64, i64), vel: (i64, i64), radius: i64) -> (b: Bird)
        requires
            abs_spec(pos.0 as int) <= FP_MAX,
            abs_spec(pos.1 as int) <= FP_MAX,
            abs_spec(vel.0 as int) <= VEL_MAX,
            abs_spec(vel.1 as int) <= VEL_MAX,
            0 <= radius <= SCALE,
        ensures
            b.px == pos.0 && b.py == pos.1,
            b.vx == vel.0 && b.vy == vel.1,
            b.radius == radius,
            !b.jump,
            b.active,
            b.wf(),
    {
        Bird {
            id: fresh_id(),
            px: pos.0,
            py: pos.1,
            vx: vel.0,
            vy: vel.1,
            radius,
            jump: false,
            active: true,
        }
    }

    /// The id this bird was created with.
    pub fn id(&self) -> (r: u128)
        ensures
            r == self.id,
    {
        self.id
    }

    /// Gravity is one unit per second per second.
    pub fn gravity(&self) -> (g: i64)
        ensures
            g == SCALE,
    {
        SCALE
    }

    /// Records the jump intent for the next step.
    pub fn set_input(&mut self, input: bool)
        ensures
            *final(self) == (Bird { jump: input, ..*old(self) }),
    {
        self.jump = input;
    }

    /// Overwrites the active flag and returns the new value.
    pub fn set_active(&mut self, active: bool) -> (r: bool)
        ensures
            *final(self) == (Bird { active: active, ..*old(self) }),
            r == active,
    {
        self.active = active;
        self.active
    }

    /// One physics step: an inactive bird is left exactly as it is; an
    /// active bird gets its new vertical velocity, then moves by
    /// `velocity * dt` on each axis (saturating at the field edge), and its
    /// jump intent is spent.
    pub fn update(&mut self, dt: i64)
        requires
            old(self).wf(),
            0 < dt <= DT_MAX,
        ensures
            final(self).wf(),
            *final(self) == old(self).stepped(dt),
    {
        if !self.active {
            return ;
        }
        let g = self.gravity();
        if self.jump {
            let base: i64 = if self.vy < 0 {
                0
            } else {
                self.vy
            };
            let impulse = fp_mul(fp_mul(JUMP_FACTOR * SCALE, g), dt);
            proof {
                lemma_fp_mul_bound(
                    fp_mul_spec((JUMP_FACTOR * SCALE) as int, SCALE as int),
                    dt as int,
                    30 * SCALE,
                    DT_MAX as int,
                );
            }
            self.vy = base + impulse;
            self.jump = false;
        } else {
            let pull = fp_mul(g, dt);
            proof {
                lemma_fp_mul_bound(SCALE as int, dt as int, SCALE as int, DT_MAX as int);
            }
            self.vy = self.vy - pull;
        }
        let cap = fp_mul(fp_mul(VY_CAP_FACTOR * SCALE, g), dt);
        proof {
            lemma_fp_mul_bound(
                fp_mul_spec((VY_CAP_FACTOR * SCALE) as int, SCALE as int),
                dt as int,
                60 * SCALE,
                DT_MAX as int,
            );
        }
        if self.vy < -SCALE {
            self.vy = -SCALE;
        }
        if self.vy > cap {
            self.vy = cap;
        }
        let dx = fp_mul(self.vx, dt);
        let dy = fp_mul(self.vy, dt);
        proof {
            lemma_fp_mul_bound(old(self).vx as int, dt as int, VEL_MAX as int, DT_MAX as int);
            lemma_fp_mul_bound(old(self).stepped_vy(dt), dt as int, VEL_MAX as int, DT_MAX as int);
        }
        self.px = sat_add(self.px, dx);
        self.py = sat_add(self.py, dy);
    }
}

} // verus!
