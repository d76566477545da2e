//! 3-dimensional vector type over fixed-point scalars.

use crate::fx;
use vstd::prelude::*;

verus! {

/// Ghost-level view of a vector: unbounded integer components.
pub struct Vec3S {
    pub x: int,
    pub y: int,
    pub z: int,
}

/// 3-dimensional vector, holding fixed-point components.
#[derive(Clone, Copy, Debug)]
pub struct Vector3D {
    /// First component of the vector.
    pub x: i128,
    /// Second component of the vector.
    pub y: i128,
    /// Third component of the vector.
    pub z: i128,
}

impl View for Vector3D {
    type V = Vec3S;

    open spec fn view(&self) -> Vec3S {
        Vec3S { x: self.x as int, y: self.y as int, z: self.z as int }
    }
}

/// All three components are in the representable range.
pub open spec fn v3_ok(v: Vector3D) -> bool {
    fx::fx_ok(v.x) && fx::fx_ok(v.y) && fx::fx_ok(v.z)
}

/// Component-wise saturating sum.
pub open spec fn v3_add(a: Vec3S, b: Vec3S) -> Vec3S {
    Vec3S { x: fx::fx_add(a.x, b.x), y: fx::fx_add(a.y, b.y), z: fx::fx_add(a.z, b.z) }
}

/// Component-wise saturating difference.
pub open spec fn v3_sub(a: Vec3S, b: Vec3S) -> Vec3S {
    Vec3S { x: fx::fx_sub(a.x, b.x), y: fx::fx_sub(a.y, b.y), z: fx::fx_sub(a.z, b.z) }
}

/// Scaling by a fixed-point factor.
pub open spec fn v3_scale(a: Vec3S, f: int) -> Vec3S {
    Vec3S { x: fx::fx_mul(a.x, f), y: fx::fx_mul(a.y, f), z: fx::fx_mul(a.z, f) }
}

/// Scalar product, accumulated with saturating additions.
pub open spec fn v3_dot(a: Vec3S, b: Vec3S) -> int {
    fx::fx_add(fx::fx_add(fx::fx_mul(a.x, b.x), fx::fx_mul(a.y, b.y)), fx::fx_mul(a.z, b.z))
}

/// Cross product.
pub open spec fn v3_cross(a: Vec3S, b: Vec3S) -> Vec3S {
    Vec3S {
        x: fx::fx_sub(fx::fx_mul(a.y, b.z), fx::fx_mul(a.z, b.y)),
        y: fx::fx_sub(fx::fx_mul(a.z, b.x), fx::fx_mul(a.x, b.z)),
        z: fx::fx_sub(fx::fx_mul(a.x, b.y), fx::fx_mul(a.y, b.x)),
    }
}

impl Vector3D {
    /// Create a new `Vector3D` with components `x`, `y`, `z`.
    pub fn new(x: i128, y: i128, z: i128) -> (r: Vector3D)
        requires
            fx::fx_ok(x),
            fx::fx_ok(y),
            fx::fx_ok(z),
        ensures
            r.x == x && r.y == y && r.z == z,
            v3_ok(r),
    {
        Vector3D { x, y, z }
    }

    /// The null vector.
    pub fn zero() -> (r: Vector3D)
        ensures
            r.x == 0 && r.y == 0 && r.z == 0,
            v3_ok(r),
    {
        Vector3D { x: 0, y: 0, z: 0 }
    }

    /// Component-wise saturating sum.
    pub fn add_v(&self, other: &Vector3D) -> (r: Vector3D)
        requires
            v3_ok(*self),
            v3_ok(*other),
        ensures
            r@ == v3_add(self@, other@),
            v3_ok(r),
    {
        Vector3D {
            x: fx::add(self.x, other.x),
            y: fx::add(self.y, other.y),
            z: fx::add(self.z, other.z),
        }
    }

    /// Component-wise saturating difference.
    pub fn sub_v(&self, other: &Vector3D) -> (r: Vector3D)
        requires
            v3_ok(*self),
            v3_ok(*other),
        ensures
            r@ == v3_sub(self@, other@),
            v3_ok(r),
    {
        Vector3D {
            x: fx::sub(self.x, other.x),
            y: fx::sub(self.y, other.y),
            z: fx::sub(self.z, other.z),
        }
    }

    /// Scaling by a fixed-point factor.
    pub fn scale(&self, f: i128) -> (r: Vector3D)
        requires
            v3_ok(*self),
            fx::fx_ok(f),
        ensures
            r@ == v3_scale(self@, f as int),
            v3_ok(r),
    {
        Vector3D { x: fx::mul(self.x, f), y: fx::mul(self.y, f), z: fx::mul(self.z, f) }
    }

    /// Scalar product.
    pub fn dot(&self, other: &Vector3D) -> (r: i128)
        requires
            v3_ok(*self),
            v3_ok(*other),
        ensures
            r == v3_dot(self@, other@),
            fx::fx_ok(r),
    {
        fx::add(
            fx::add(fx::mul(self.x, other.x), fx::mul(self.y, other.y)),
            fx::mul(self.z, other.z),
        )
    }

    /// Squared Euclidean norm.
    pub fn norm2(&self) -> (r: i128)
        requires
            v3_ok(*self),
        ensures
            r == v3_dot(self@, self@),
            fx::fx_ok(r),
            r >= 0,
    {
        let r = self.dot(self);
        proof {
            crate::fx::lemma_square_nonneg(self.x as int, self.y as int, self.z as int);
        }
        r
    }

    /// Euclidean norm: the square root of the squared norm.
    pub fn norm(&self) -> (r: i128)
        requires
            v3_ok(*self),
        ensures
            r == crate::math::fx_sqrt(v3_dot(self@, self@)),
            fx::fx_ok(r),
            r >= 0,
    {
        let n2 = self.norm2();
        crate::math::sqrt(n2)
    }

    /// Cross product.
    pub fn cross(&self, other: &Vector3D) -> (r: Vector3D)
        requires
            v3_ok(*self),
            v3_ok(*other),
        ensures
            r@ == v3_cross(self@, other@),
            v3_ok(r),
    {
        Vector3D {
            x: fx::sub(fx::mul(self.y, other.z), fx::mul(self.z, other.y)),
            y: fx::sub(fx::mul(self.z, other.x), fx::mul(self.x, other.z)),
            z: fx::sub(fx::mul(self.x, other.y), fx::mul(self.y, other.x)),
        }
    }
}

} // verus!
