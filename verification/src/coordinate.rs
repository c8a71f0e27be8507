//! An immutable 3-component spatial position, handed to every node during
//! evaluation.  Components are lattice scalars; the driver builds one from
//! each pixel's integer position with `z = 0`.
use vstd::prelude::*;

use crate::scalar::Scalar;

verus! {

#[derive(Debug, Clone, Copy, PartialEq, Eq, Structural)]
pub struct Coordinate {
    pub x: Scalar,
    pub y: Scalar,
    pub z: Scalar,
}

impl Coordinate {
    pub fn new(x: Scalar, y: Scalar, z: Scalar) -> (c: Coordinate)
        ensures
            c == (Coordinate { x, y, z }),
    {
        Coordinate { x, y, z }
    }

    pub fn new_x(x: Scalar) -> (c: Coordinate)
        ensures
            c == (Coordinate { x, y: Scalar { bits: 0 }, z: Scalar { bits: 0 } }),
    {
        Self::new_xy(x, Scalar::zero())
    }

    pub fn new_xy(x: Scalar, y: Scalar) -> (c: Coordinate)
        ensures
            c == (Coordinate { x, y, z: Scalar { bits: 0 } }),
    {
        Self::new(x, y, Scalar::zero())
    }

    pub fn x(&self) -> (v: Scalar)
        ensures
            v == self.x,
    {
        self.x
    }

    pub fn y(&self) -> (v: Scalar)
        ensures
            v == self.y,
    {
        self.y
    }

    pub fn z(&self) -> (v: Scalar)
        ensures
            v == self.z,
    {
        self.z
    }
}

} // verus!
