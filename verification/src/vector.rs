//! Vectors of scalars: positions and accelerations in space, forces in the
//! simulation plane.

use crate::scalar::Scalar;
use vstd::prelude::*;

verus! {

/// A vector in the simulation plane: a force, or one contribution to it.
#[derive(Clone, Copy, Debug, PartialEq, Eq, Structural)]
pub struct Vector2 {
    pub x: Scalar,
    pub y: Scalar,
}

/// A vector in space: a position or an acceleration.
#[derive(Clone, Copy, Debug, PartialEq, Eq, Structural)]
pub struct Vector3 {
    pub x: Scalar,
    pub y: Scalar,
    pub z: Scalar,
}

impl Vector2 {
    /// Every component is finite.
    pub open spec fn finite(self) -> bool {
        self.x.finite() && self.y.finite()
    }

    pub fn new(x: Scalar, y: Scalar) -> (v: Vector2)
        ensures
            v == (Vector2 { x, y }),
    {
        Vector2 { x, y }
    }

    /// The vector whose components are both positive zero.
    pub fn zero() -> (v: Vector2)
        ensures
            v.x.bits == 0,
            v.y.bits == 0,
            v.finite(),
    {
        Vector2 { x: Scalar::positive_zero(), y: Scalar::positive_zero() }
    }

    pub fn is_finite(&self) -> (r: bool)
        ensures
            r == self.finite(),
    {
        self.x.is_finite() && self.y.is_finite()
    }
}

impl Vector3 {
    /// Every component is finite.
    pub open spec fn finite(self) -> bool {
        self.x.finite() && self.y.finite() && self.z.finite()
    }

    /// The part of the vector that lies in the simulation plane.
    pub open spec fn planar(self) -> Vector2 {
        Vector2 { x: self.x, y: self.y }
    }

    pub fn new(x: Scalar, y: Scalar, z: Scalar) -> (v: Vector3)
        ensures
            v == (Vector3 { x, y, z }),
    {
        Vector3 { x, y, z }
    }

    pub fn is_finite(&self) -> (r: bool)
        ensures
            r == self.finite(),
    {
        self.x.is_finite() && self.y.is_finite() && self.z.is_finite()
    }

    /// Drops the third component.
    pub fn truncate(&self) -> (v: Vector2)
        ensures
            v == self.planar(),
    {
        Vector2 { x: self.x, y: self.y }
    }
}

} // verus!
