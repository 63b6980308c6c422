//! Plane vectors in fixed point.

use vstd::prelude::*;

verus! {

/// A vector of the plane; each component counts thousandths of a world unit.
#[derive(Clone, Copy, Debug, PartialEq, Eq)]
pub struct Vec2 {
    pub x: i64,
    pub y: i64,
}

/// The mathematical vector that a `Vec2` stands for, free of machine bounds.
pub struct Vector {
    pub x: int,
    pub y: int,
}

impl Vector {
    pub open spec fn zero() -> Vector {
        Vector { x: 0, y: 0 }
    }

    pub open spec fn plus(self, other: Vector) -> Vector {
        Vector { x: self.x + other.x, y: self.y + other.y }
    }

    pub open spec fn minus(self, other: Vector) -> Vector {
        Vector { x: self.x - other.x, y: self.y - other.y }
    }

    pub open spec fn negated(self) -> Vector {
        Vector { x: -self.x, y: -self.y }
    }

    /// The squared length.
    pub open spec fn norm_sq(self) -> int {
        self.x * self.x + self.y * self.y
    }

    /// Both components lie within `limit` of zero.
    pub open spec fn within(self, limit: int) -> bool {
        -limit <= self.x <= limit && -limit <= self.y <= limit
    }

    /// The `Vec2` that stands for this vector. It is the same vector as long
    /// as both components fit into 64 bits.
    pub open spec fn to_vec2(self) -> Vec2 {
        Vec2 { x: self.x as i64, y: self.y as i64 }
    }
}

impl View for Vec2 {
    type V = Vector;

    open spec fn view(&self) -> Vector {
        Vector { x: self.x as int, y: self.y as int }
    }
}

impl Vec2 {
    pub fn new(x: i64, y: i64) -> (v: Vec2)
        ensures
            v.x == x,
            v.y == y,
    {
        Vec2 { x, y }
    }

    /// Whether both components lie within `limit` of zero.
    pub fn is_within(&self, limit: i64) -> (b: bool)
        requires
            limit >= 0,
        ensures
            b == self@.within(limit as int),
    {
        -limit <= self.x && self.x <= limit && -limit <= self.y && self.y <= limit
    }
}

} // verus!
