//! Three-component vectors: fixed-point world coordinates and unsigned
//! voxel coordinates.

use vstd::prelude::*;

use crate::axis::{Axis, HasAxis, HasAxisMut};
use crate::fx::{fx_mul, fx_mul_spec, sabs, FX_LIMIT};

verus! {

/// A point or displacement in fixed-point world coordinates.
#[derive(Debug, Clone, Copy, PartialEq, Eq, Structural)]
pub struct Vec3 {
    pub x: i64,
    pub y: i64,
    pub z: i64,
}

/// An integer voxel coordinate.
#[derive(Debug, Clone, Copy, PartialEq, Eq, Structural)]
pub struct UVec3 {
    pub x: u32,
    pub y: u32,
    pub z: u32,
}

impl Vec3 {
    pub open spec fn axis(self, a: Axis) -> int {
        match a {
            Axis::X => self.x as int,
            Axis::Y => self.y as int,
            Axis::Z => self.z as int,
        }
    }

    /// All three components have magnitude at most `m`.
    pub open spec fn bounded(self, m: int) -> bool {
        sabs(self.x as int) <= m && sabs(self.y as int) <= m && sabs(self.z as int) <= m
    }

    pub open spec fn with_axis_spec(self, a: Axis, v: i64) -> Vec3 {
        match a {
            Axis::X => Vec3 { x: v, ..self },
            Axis::Y => Vec3 { y: v, ..self },
            Axis::Z => Vec3 { z: v, ..self },
        }
    }

    pub fn new(x: i64, y: i64, z: i64) -> (r: Vec3)
        ensures
            r == (Vec3 { x, y, z }),
    {
        Vec3 { x, y, z }
    }

    /// Copy of `self` with one component replaced.
    pub fn with_axis(self, a: Axis, v: i64) -> (r: Vec3)
        ensures
            r == self.with_axis_spec(a, v),
            r.axis(a) == v as int,
            forall|b: Axis| b != a ==> #[trigger] r.axis(b) == self.axis(b),
    {
        match a {
            Axis::X => Vec3 { x: v, ..self },
            Axis::Y => Vec3 { y: v, ..self },
            Axis::Z => Vec3 { z: v, ..self },
        }
    }

    /// Component-wise sum.
    pub fn add(self, rhs: Vec3) -> (r: Vec3)
        requires
            self.bounded(FX_LIMIT as int),
            rhs.bounded(FX_LIMIT as int),
        ensures
            r.x == self.x + rhs.x,
            r.y == self.y + rhs.y,
            r.z == self.z + rhs.z,
    {
        Vec3 { x: self.x + rhs.x, y: self.y + rhs.y, z: self.z + rhs.z }
    }

    /// Component-wise difference.
    pub fn sub(self, rhs: Vec3) -> (r: Vec3)
        requires
            self.bounded(FX_LIMIT as int),
            rhs.bounded(FX_LIMIT as int),
        ensures
            r.x == self.x - rhs.x,
            r.y == self.y - rhs.y,
            r.z == self.z - rhs.z,
    {
        Vec3 { x: self.x - rhs.x, y: self.y - rhs.y, z: self.z - rhs.z }
    }

    /// Component-wise fixed-point scaling by `t`.
    pub fn scale(self, t: i64) -> (r: Vec3)
        requires
            self.bounded(1_000_000_000),
            -1_000_000_000 <= t <= 1_000_000_000,
        ensures
            r.x == fx_mul_spec(self.x as int, t as int),
            r.y == fx_mul_spec(self.y as int, t as int),
            r.z == fx_mul_spec(self.z as int, t as int),
    {
        proof {
            assert forall|c: int| sabs(c) <= 1_000_000_000 implies sabs(c) * sabs(t as int)
                <= 4_000_000_000_000_000_000 by {
                assert(sabs(c) * sabs(t as int) <= 1_000_000_000 * 1_000_000_000)
                    by (nonlinear_arith)
                    requires
                        0 <= sabs(c) <= 1_000_000_000,
                        0 <= sabs(t as int) <= 1_000_000_000,
                ;
            }
        }
        Vec3 { x: fx_mul(self.x, t), y: fx_mul(self.y, t), z: fx_mul(self.z, t) }
    }
}

impl HasAxis for Vec3 {
    type Target = i64;

    open spec fn get_axis_spec(&self, a: Axis) -> i64 {
        match a {
            Axis::X => self.x,
            Axis::Y => self.y,
            Axis::Z => self.z,
        }
    }

    fn get_axis(&self, a: Axis) -> (r: i64)
        ensures
            r == self.get_axis_spec(a),
    {
        match a {
            Axis::X => self.x,
            Axis::Y => self.y,
            Axis::Z => self.z,
        }
    }
}

impl HasAxisMut for Vec3 {
    fn set_axis(&mut self, a: Axis, value: i64)
        ensures
            forall|b: Axis| #[trigger]
                final(self).get_axis_spec(b) == if b == a {
                    value
                } else {
                    old(self).get_axis_spec(b)
                },
    {
        match a {
            Axis::X => self.x = value,
            Axis::Y => self.y = value,
            Axis::Z => self.z = value,
        }
    }
}

impl UVec3 {
    pub open spec fn axis(self, a: Axis) -> int {
        match a {
            Axis::X => self.x as int,
            Axis::Y => self.y as int,
            Axis::Z => self.z as int,
        }
    }

    pub fn new(x: u32, y: u32, z: u32) -> (r: UVec3)
        ensures
            r == (UVec3 { x, y, z }),
    {
        UVec3 { x, y, z }
    }
}

impl HasAxis for UVec3 {
    type Target = u32;

    open spec fn get_axis_spec(&self, a: Axis) -> u32 {
        match a {
            Axis::X => self.x,
            Axis::Y => self.y,
            Axis::Z => self.z,
        }
    }

    fn get_axis(&self, a: Axis) -> (r: u32)
        ensures
            r == self.get_axis_spec(a),
    {
        match a {
            Axis::X => self.x,
            Axis::Y => self.y,
            Axis::Z => self.z,
        }
    }
}

} // verus!
