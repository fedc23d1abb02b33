//! Positions in space.
use crate::scalar::Scalar;
use crate::vector::Vector;
use crate::wide::{gap, unit_of, unit_wide, way};
use vstd::prelude::*;

verus! {

/// A position. A point less a point is a vector; a point plus a vector is a
/// point.
#[derive(Clone, Copy, Debug, PartialEq, Eq, Structural)]
pub struct Point {
    pub x: Scalar,
    pub y: Scalar,
    pub z: Scalar,
}

impl Point {
    /// The displacement that leads from `rhs` to `self`. As a `Vector` it is
    /// clamped, axis by axis, where the two points lie further apart than a
    /// `Scalar` can hold; the exact way is `wide::way`.
    pub open spec fn minus(self, rhs: Point) -> Vector {
        Vector {
            x: self.x.difference(rhs.x),
            y: self.y.difference(rhs.y),
            z: self.z.difference(rhs.z),
        }
    }

    /// The point that `rhs` leads to from `self`.
    pub open spec fn plus(self, rhs: Vector) -> Point {
        Point { x: self.x.sum(rhs.x), y: self.y.sum(rhs.y), z: self.z.sum(rhs.z) }
    }

    /// The direction of length one that leads from `p` to `self`, taken from
    /// the exact way between the two points.
    pub fn normal(&self, p: &Point) -> (r: Vector)
        ensures
            r == unit_of(way(*self, *p)),
    {
        unit_wide(gap(self.x, p.x), gap(self.y, p.y), gap(self.z, p.z))
    }

    pub fn sub(self, rhs: Point) -> (r: Vector)
        ensures
            r == self.minus(rhs),
    {
        Vector { x: self.x.sub(rhs.x), y: self.y.sub(rhs.y), z: self.z.sub(rhs.z) }
    }

    pub fn add(self, rhs: Vector) -> (r: Point)
        ensures
            r == self.plus(rhs),
    {
        Point { x: self.x.add(rhs.x), y: self.y.add(rhs.y), z: self.z.add(rhs.z) }
    }
}

} // verus!
