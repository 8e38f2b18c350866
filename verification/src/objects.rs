//! The shared shape of simulated objects: every one has an id and takes a
//! time step, and the geometric kinds expose position, velocity and their
//! footprint.

use vstd::prelude::*;

use crate::bird::Bird;
use crate::wall::Wall;

verus! {

/// The scalar kind the geometry works over; here, the fixed-point `i64`.
pub trait Number: Copy {

}

impl Number for i64 {

}

/// Anything with a position on the field.
pub trait Position {
    /// The position as the pair of fixed-point coordinates.
    spec fn pos_spec(&self) -> (i64, i64);

    /// Reads the position.
    fn position(&self) -> (p: (i64, i64))
        ensures
            p == self.pos_spec(),
    ;

    /// Overwrites the position and returns the new value.
    fn set_position(&mut self, position: (i64, i64)) -> (p: (i64, i64))
        ensures
            final(self).pos_spec() == position,
            p == position,
    ;
}

/// Anything with a velocity.
pub trait Velocity {
    /// The velocity as the pair of fixed-point components.
    spec fn vel_spec(&self) -> (i64, i64);

    /// Reads the velocity.
    fn velocity(&self) -> (v: (i64, i64))
        ensures
            v == self.vel_spec(),
    ;

    /// Overwrites the velocity and returns the new value.
    fn set_velocity(&mut self, velocity: (i64, i64)) -> (v: (i64, i64))
        ensures
            final(self).vel_spec() == velocity,
            v == velocity,
    ;
}

/// A movable object: position and velocity together.
pub trait IObject: Position + Velocity {

}

/// Anything pulled downward.
pub trait HasGravity {
    /// Reads the gravity constant, in fixed-point units per second per
    /// second.
    fn gravity(&self) -> i64;
}

/// A circular object: a position, a centre offset and a radius.
pub trait Circle: Position {
    /// The radius in fixed-point units.
    spec fn radius_spec(&self) -> i64;

    /// Reads the centre, as an offset from the position.
    fn center(&self) -> (c: (i64, i64))
        ensures
            c == (0i64, 0i64),
    ;

    /// The centre offset is fixed at the position itself: setting it is a
    /// no-op that returns the centre.
    fn set_center(&mut self, center: (i64, i64)) -> (c: (i64, i64))
        ensures
            c == (0i64, 0i64),
    ;

    /// Reads the radius.
    fn radius(&self) -> (r: i64)
        ensures
            r == self.radius_spec(),
    ;

    /// Overwrites the radius and returns the new value.
    fn set_radius(&mut self, radius: i64) -> (r: i64)
        ensures
            final(self).radius_spec() == radius,
            r == radius,
    ;
}

/// A rectangular object: a position, a centre offset and two sides.
pub trait Rectange: Position {
    /// The width in fixed-point units.
    spec fn width_spec(&self) -> i64;

    /// The height in fixed-point units.
    spec fn height_spec(&self) -> i64;

    /// Reads the centre, as an offset from the position.
    fn center(&self) -> (c: (i64, i64))
        ensures
            c == (0i64, 0i64),
    ;

    /// The centre offset is fixed at the position itself: setting it is a
    /// no-op that returns the centre.
    fn set_center(&mut self, center: (i64, i64)) -> (c: (i64, i64))
        ensures
            c == (0i64, 0i64),
    ;

    /// Reads the width.
    fn width(&self) -> (w: i64)
        ensures
            w == self.width_spec(),
    ;

    /// Overwrites the width and returns the new value.
    fn set_width(&mut self, width: i64) -> (w: i64)
        ensures
            final(self).width_spec() == width,
            w == width,
    ;

    /// Reads the height.
    fn height(&self) -> (h: i64)
        ensures
            h == self.height_spec(),
    ;

    /// Overwrites the height and returns the new value.
    fn set_height(&mut self, height: i64) -> (h: i64)
        ensures
            final(self).height_spec() == height,
            h == height,
    ;
}

impl Position for Bird {
    open spec fn pos_spec(&self) -> (i64, i64) {
        (self.px, self.py)
    }

    fn position(&self) -> (p: (i64, i64)) {
        (self.px, self.py)
    }

    fn set_position(&mut self, position: (i64, i64)) -> (p: (i64, i64)) {
        self.px = position.0;
        self.py = position.1;
        (self.px, self.py)
    }
}

impl Velocity for Bird {
    open spec fn vel_spec(&self) -> (i64, i64) {
        (self.vx, self.vy)
    }

    fn velocity(&self) -> (v: (i64, i64)) {
        (self.vx, self.vy)
    }

    fn set_velocity(&mut self, velocity: (i64, i64)) -> (v: (i64, i64)) {
        self.vx = velocity.0;
        self.vy = velocity.1;
        (self.vx, self.vy)
    }
}

impl IObject for Bird {

}

impl HasGravity for Bird {
    fn gravity(&self) -> i64 {
        Bird::gravity(self)
    }
}

impl Circle for Bird {
    open spec fn radius_spec(&self) -> i64 {
        self.radius
    }

    fn center(&self) -> (c: (i64, i64)) {
        (0, 0)
    }

    fn set_center(&mut self, center: (i64, i64)) -> (c: (i64, i64)) {
        let _ = center;
        (0, 0)
    }

    fn radius(&self) -> (r: i64) {
        self.radius
    }

    fn set_radius(&mut self, radius: i64) -> (r: i64) {
        self.radius = radius;
        self.radius
    }
}

impl Position for Wall {
    open spec fn pos_spec(&self) -> (i64, i64) {
        (self.px, self.py)
    }

    fn position(&self) -> (p: (i64, i64)) {
        (self.px, self.py)
    }

    fn set_position(&mut self, position: (i64, i64)) -> (p: (i64, i64)) {
        self.px = position.0;
        self.py = position.1;
        (self.px, self.py)
    }
}

impl Velocity for Wall {
    open spec fn vel_spec(&self) -> (i64, i64) {
        (self.vx, self.vy)
    }

    fn velocity(&self) -> (v: (i64, i64)) {
        (self.vx, self.vy)
    }

    fn set_velocity(&mut self, velocity: (i64, i64)) -> (v: (i64, i64)) {
        self.vx = velocity.0;
        self.vy = velocity.1;
        (self.vx, self.vy)
    }
}

impl IObject for Wall {

}

impl Rectange for Wall {
    open spec fn width_spec(&self) -> i64 {
        self.width
    }

    open spec fn height_spec(&self) -> i64 {
        self.height
    }

    fn center(&self) -> (c: (i64, i64)) {
        (0, 0)
    }

    fn set_center(&mut self, center: (i64, i64)) -> (c: (i64, i64)) {
        let _ = center;
        (0, 0)
    }

    fn width(&self) -> (w: i64) {
        self.width
    }

    fn set_width(&mut self, width: i64) -> (w: i64) {
        self.width = width;
        self.width
    }

    fn height(&self) -> (h: i64) {
        self.height
    }

    fn set_height(&mut self, height: i64) -> (h: i64) {
        self.height = height;
        self.height
    }
}

/// A bare simulated object: nothing but an id.
#[derive(Debug, Clone, Copy, PartialEq, Eq, Structural)]
pub struct GameObject {
    pub id: u128,
}

impl GameObject {
    /// The id this object carries.
    pub fn id(&self) -> (r: u128)
        ensures
            r == self.id,
    {
        self.id
    }

    /// A bare object has no physics: a step changes nothing.
    pub fn update(&mut self, dt: i64)
        ensures
            *final(self) == *old(self),
    {
        let _ = dt;
    }
}

} // verus!
