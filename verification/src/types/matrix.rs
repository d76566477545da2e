//! 3x3 matrix type over fixed-point scalars.

use crate::fx;
use crate::types::vectors::{v3_ok, Vec3S, Vector3D};
use vstd::prelude::*;

verus! {

/// Ghost-level view of a matrix: unbounded integer entries.
pub struct Mat3S {
    pub m00: int,
    pub m01: int,
    pub m02: int,
    pub m10: int,
    pub m11: int,
    pub m12: int,
    pub m20: int,
    pub m21: int,
    pub m22: int,
}

/// 3x3 matrix, holding fixed-point entries.
#[derive(Clone, Copy, Debug)]
pub struct Matrix3 {
    pub m00: i128,
    pub m01: i128,
    pub m02: i128,
    pub m10: i128,
    pub m11: i128,
    pub m12: i128,
    pub m20: i128,
    pub m21: i128,
    pub m22: i128,
}

impl View for Matrix3 {
    type V = Mat3S;

    open spec fn view(&self) -> Mat3S {
        Mat3S {
            m00: self.m00 as int,
            m01: self.m01 as int,
            m02: self.m02 as int,
            m10: self.m10 as int,
            m11: self.m11 as int,
            m12: self.m12 as int,
            m20: self.m20 as int,
            m21: self.m21 as int,
            m22: self.m22 as int,
        }
    }
}

/// All nine entries are in the representable range.
pub open spec fn m3_ok(m: Matrix3) -> bool {
    fx::fx_ok(m.m00) && fx::fx_ok(m.m01) && fx::fx_ok(m.m02) && fx::fx_ok(m.m10) && fx::fx_ok(
        m.m11,
    ) && fx::fx_ok(m.m12) && fx::fx_ok(m.m20) && fx::fx_ok(m.m21) && fx::fx_ok(m.m22)
}

/// Entry-wise saturating sum.
pub open spec fn m3_add(a: Mat3S, b: Mat3S) -> Mat3S {
    Mat3S {
        m00: fx::fx_add(a.m00, b.m00),
        m01: fx::fx_add(a.m01, b.m01),
        m02: fx::fx_add(a.m02, b.m02),
        m10: fx::fx_add(a.m10, b.m10),
        m11: fx::fx_add(a.m11, b.m11),
        m12: fx::fx_add(a.m12, b.m12),
        m20: fx::fx_add(a.m20, b.m20),
        m21: fx::fx_add(a.m21, b.m21),
        m22: fx::fx_add(a.m22, b.m22),
    }
}

/// Entry-wise saturating difference.
pub open spec fn m3_sub(a: Mat3S, b: Mat3S) -> Mat3S {
    Mat3S {
        m00: fx::fx_sub(a.m00, b.m00),
        m01: fx::fx_sub(a.m01, b.m01),
        m02: fx::fx_sub(a.m02, b.m02),
        m10: fx::fx_sub(a.m10, b.m10),
        m11: fx::fx_sub(a.m11, b.m11),
        m12: fx::fx_sub(a.m12, b.m12),
        m20: fx::fx_sub(a.m20, b.m20),
        m21: fx::fx_sub(a.m21, b.m21),
        m22: fx::fx_sub(a.m22, b.m22),
    }
}

/// Entry-wise scaling by a fixed-point factor.
pub open spec fn m3_scale(a: Mat3S, f: int) -> Mat3S {
    Mat3S {
        m00: fx::fx_mul(a.m00, f),
        m01: fx::fx_mul(a.m01, f),
        m02: fx::fx_mul(a.m02, f),
        m10: fx::fx_mul(a.m10, f),
        m11: fx::fx_mul(a.m11, f),
        m12: fx::fx_mul(a.m12, f),
        m20: fx::fx_mul(a.m20, f),
        m21: fx::fx_mul(a.m21, f),
        m22: fx::fx_mul(a.m22, f),
    }
}

/// One entry of a matrix product: a row-column scalar product.
pub open spec fn m3_rc(a0: int, a1: int, a2: int, b0: int, b1: int, b2: int) -> int {
    fx::fx_add(fx::fx_add(fx::fx_mul(a0, b0), fx::fx_mul(a1, b1)), fx::fx_mul(a2, b2))
}

/// Matrix product.
pub open spec fn m3_mul(a: Mat3S, b: Mat3S) -> Mat3S {
    Mat3S {
        m00: m3_rc(a.m00, a.m01, a.m02, b.m00, b.m10, b.m20),
        m01: m3_rc(a.m00, a.m01, a.m02, b.m01, b.m11, b.m21),
        m02: m3_rc(a.m00, a.m01, a.m02, b.m02, b.m12, b.m22),
        m10: m3_rc(a.m10, a.m11, a.m12, b.m00, b.m10, b.m20),
        m11: m3_rc(a.m10, a.m11, a.m12, b.m01, b.m11, b.m21),
        m12: m3_rc(a.m10, a.m11, a.m12, b.m02, b.m12, b.m22),
        m20: m3_rc(a.m20, a.m21, a.m22, b.m00, b.m10, b.m20),
        m21: m3_rc(a.m20, a.m21, a.m22, b.m01, b.m11, b.m21),
        m22: m3_rc(a.m20, a.m21, a.m22, b.m02, b.m12, b.m22),
    }
}

/// Matrix-vector product.
pub open spec fn m3_mul_v(a: Mat3S, v: Vec3S) -> Vec3S {
    Vec3S {
        x: m3_rc(a.m00, a.m01, a.m02, v.x, v.y, v.z),
        y: m3_rc(a.m10, a.m11, a.m12, v.x, v.y, v.z),
        z: m3_rc(a.m20, a.m21, a.m22, v.x, v.y, v.z),
    }
}

/// Determinant, computed by cofactor expansion along the first row.
pub open spec fn m3_det(a: Mat3S) -> int {
    fx::fx_add(
        fx::fx_sub(
            fx::fx_mul(a.m00, fx::fx_sub(fx::fx_mul(a.m11, a.m22), fx::fx_mul(a.m12, a.m21))),
            fx::fx_mul(a.m01, fx::fx_sub(fx::fx_mul(a.m10, a.m22), fx::fx_mul(a.m12, a.m20))),
        ),
        fx::fx_mul(a.m02, fx::fx_sub(fx::fx_mul(a.m10, a.m21), fx::fx_mul(a.m11, a.m20))),
    )
}

/// Inverse: the adjugate scaled by the reciprocal of the determinant. A
/// singular matrix saturates, as a float implementation would divide by
/// zero.
pub open spec fn m3_inverse(a: Mat3S) -> Mat3S {
    let f = fx::fx_div(fx::FX_SCALE as int, m3_det(a));
    m3_scale(
        Mat3S {
            m00: fx::fx_sub(fx::fx_mul(a.m11, a.m22), fx::fx_mul(a.m12, a.m21)),
            m01: fx::fx_sub(fx::fx_mul(a.m02, a.m21), fx::fx_mul(a.m01, a.m22)),
            m02: fx::fx_sub(fx::fx_mul(a.m01, a.m12), fx::fx_mul(a.m02, a.m11)),
            m10: fx::fx_sub(fx::fx_mul(a.m12, a.m20), fx::fx_mul(a.m10, a.m22)),
            m11: fx::fx_sub(fx::fx_mul(a.m00, a.m22), fx::fx_mul(a.m02, a.m20)),
            m12: fx::fx_sub(fx::fx_mul(a.m02, a.m10), fx::fx_mul(a.m00, a.m12)),
            m20: fx::fx_sub(fx::fx_mul(a.m10, a.m21), fx::fx_mul(a.m11, a.m20)),
            m21: fx::fx_sub(fx::fx_mul(a.m01, a.m20), fx::fx_mul(a.m00, a.m21)),
            m22: fx::fx_sub(fx::fx_mul(a.m00, a.m11), fx::fx_mul(a.m01, a.m10)),
        },
        f,
    )
}

impl Matrix3 {
    /// Create a matrix from its nine entries, row by row.
    #[allow(clippy::too_many_arguments)]
    pub fn new(
        m00: i128,
        m01: i128,
        m02: i128,
        m10: i128,
        m11: i128,
        m12: i128,
        m20: i128,
        m21: i128,
        m22: i128,
    ) -> (r: Matrix3)
        requires
            fx::fx_ok(m00) && fx::fx_ok(m01) && fx::fx_ok(m02),
            fx::fx_ok(m10) && fx::fx_ok(m11) && fx::fx_ok(m12),
            fx::fx_ok(m20) && fx::fx_ok(m21) && fx::fx_ok(m22),
        ensures
            r.m00 == m00 && r.m01 == m01 && r.m02 == m02,
            r.m10 == m10 && r.m11 == m11 && r.m12 == m12,
            r.m20 == m20 && r.m21 == m21 && r.m22 == m22,
            m3_ok(r),
    {
        Matrix3 { m00, m01, m02, m10, m11, m12, m20, m21, m22 }
    }

    /// The identity matrix.
    pub fn one() -> (r: Matrix3)
        ensures
            r.m00 == fx::FX_SCALE && r.m11 == fx::FX_SCALE && r.m22 == fx::FX_SCALE,
            r.m01 == 0 && r.m02 == 0 && r.m10 == 0 && r.m12 == 0 && r.m20 == 0 && r.m21 == 0,
            m3_ok(r),
    {
        Matrix3 {
            m00: fx::FX_SCALE,
            m01: 0,
            m02: 0,
            m10: 0,
            m11: fx::FX_SCALE,
            m12: 0,
            m20: 0,
            m21: 0,
            m22: fx::FX_SCALE,
        }
    }

    /// The null matrix.
    pub fn zero() -> (r: Matrix3)
        ensures
            r@ == (Mat3S { m00: 0, m01: 0, m02: 0, m10: 0, m11: 0, m12: 0, m20: 0, m21: 0, m22: 0 }),
            m3_ok(r),
    {
        Matrix3 { m00: 0, m01: 0, m02: 0, m10: 0, m11: 0, m12: 0, m20: 0, m21: 0, m22: 0 }
    }

    /// Read the entry in row `i`, column `j`.
    pub fn get(&self, i: usize, j: usize) -> (r: i128)
        requires
            i < 3,
            j < 3,
        ensures
            r == m3_get(self@, i as int, j as int),
    {
        if i == 0 {
            if j == 0 {
                self.m00
            } else if j == 1 {
                self.m01
            } else {
                self.m02
            }
        } else if i == 1 {
            if j == 0 {
                self.m10
            } else if j == 1 {
                self.m11
            } else {
                self.m12
            }
        } else {
            if j == 0 {
                self.m20
            } else if j == 1 {
                self.m21
            } else {
                self.m22
            }
        }
    }

    /// Entry-wise saturating sum.
    pub fn add_m(&self, other: &Matrix3) -> (r: Matrix3)
        requires
            m3_ok(*self),
            m3_ok(*other),
        ensures
            r@ == m3_add(self@, other@),
            m3_ok(r),
    {
        Matrix3 {
            m00: fx::add(self.m00, other.m00),
            m01: fx::add(self.m01, other.m01),
            m02: fx::add(self.m02, other.m02),
            m10: fx::add(self.m10, other.m10),
            m11: fx::add(self.m11, other.m11),
            m12: fx::add(self.m12, other.m12),
            m20: fx::add(self.m20, other.m20),
            m21: fx::add(self.m21, other.m21),
            m22: fx::add(self.m22, other.m22),
        }
    }

    /// Entry-wise saturating difference.
    pub fn sub_m(&self, other: &Matrix3) -> (r: Matrix3)
        requires
            m3_ok(*self),
            m3_ok(*other),
        ensures
            r@ == m3_sub(self@, other@),
            m3_ok(r),
    {
        Matrix3 {
            m00: fx::sub(self.m00, other.m00),
            m01: fx::sub(self.m01, other.m01),
            m02: fx::sub(self.m02, other.m02),
            m10: fx::sub(self.m10, other.m10),
            m11: fx::sub(self.m11, other.m11),
            m12: fx::sub(self.m12, other.m12),
            m20: fx::sub(self.m20, other.m20),
            m21: fx::sub(self.m21, other.m21),
            m22: fx::sub(self.m22, other.m22),
        }
    }

    /// Entry-wise scaling by a fixed-point factor.
    pub fn scale(&self, f: i128) -> (r: Matrix3)
        requires
            m3_ok(*self),
            fx::fx_ok(f),
        ensures
            r@ == m3_scale(self@, f as int),
            m3_ok(r),
    {
        Matrix3 {
            m00: fx::mul(self.m00, f),
            m01: fx::mul(self.m01, f),
            m02: fx::mul(self.m02, f),
            m10: fx::mul(self.m10, f),
            m11: fx::mul(self.m11, f),
            m12: fx::mul(self.m12, f),
            m20: fx::mul(self.m20, f),
            m21: fx::mul(self.m21, f),
            m22: fx::mul(self.m22, f),
        }
    }

    /// Matrix product.
    pub fn mul_m(&self, other: &Matrix3) -> (r: Matrix3)
        requires
            m3_ok(*self),
            m3_ok(*other),
        ensures
            r@ == m3_mul(self@, other@),
            m3_ok(r),
    {
        let b = other;
        Matrix3 {
            m00: rc(self.m00, self.m01, self.m02, b.m00, b.m10, b.m20),
            m01: rc(self.m00, self.m01, self.m02, b.m01, b.m11, b.m21),
            m02: rc(self.m00, self.m01, self.m02, b.m02, b.m12, b.m22),
            m10: rc(self.m10, self.m11, self.m12, b.m00, b.m10, b.m20),
            m11: rc(self.m10, self.m11, self.m12, b.m01, b.m11, b.m21),
            m12: rc(self.m10, self.m11, self.m12, b.m02, b.m12, b.m22),
            m20: rc(self.m20, self.m21, self.m22, b.m00, b.m10, b.m20),
            m21: rc(self.m20, self.m21, self.m22, b.m01, b.m11, b.m21),
            m22: rc(self.m20, self.m21, self.m22, b.m02, b.m12, b.m22),
        }
    }

    /// Matrix-vector product.
    pub fn mul_v(&self, v: &Vector3D) -> (r: Vector3D)
        requires
            m3_ok(*self),
            v3_ok(*v),
        ensures
            r@ == m3_mul_v(self@, v@),
            v3_ok(r),
    {
        Vector3D {
            x: rc(self.m00, self.m01, self.m02, v.x, v.y, v.z),
            y: rc(self.m10, self.m11, self.m12, v.x, v.y, v.z),
            z: rc(self.m20, self.m21, self.m22, v.x, v.y, v.z),
        }
    }

    /// Sum of the diagonal entries.
    pub fn trace(&self) -> (r: i128)
        requires
            m3_ok(*self),
        ensures
            r == fx::fx_add(fx::fx_add(self@.m00, self@.m11), self@.m22),
            fx::fx_ok(r),
    {
        fx::add(fx::add(self.m00, self.m11), self.m22)
    }

    /// Determinant.
    pub fn det(&self) -> (r: i128)
        requires
            m3_ok(*self),
        ensures
            r == m3_det(self@),
            fx::fx_ok(r),
    {
        fx::add(
            fx::sub(
                fx::mul(self.m00, fx::sub(fx::mul(self.m11, self.m22), fx::mul(self.m12, self.m21))),
                fx::mul(self.m01, fx::sub(fx::mul(self.m10, self.m22), fx::mul(self.m12, self.m20))),
            ),
            fx::mul(self.m02, fx::sub(fx::mul(self.m10, self.m21), fx::mul(self.m11, self.m20))),
        )
    }

    /// Inverse through the adjugate; a singular matrix saturates.
    pub fn inverse(&self) -> (r: Matrix3)
        requires
            m3_ok(*self),
        ensures
            r@ == m3_inverse(self@),
            m3_ok(r),
    {
        let d = self.det();
        let f = fx::div(fx::FX_SCALE, d);
        let adj = Matrix3 {
            m00: fx::sub(fx::mul(self.m11, self.m22), fx::mul(self.m12, self.m21)),
            m01: fx::sub(fx::mul(self.m02, self.m21), fx::mul(self.m01, self.m22)),
            m02: fx::sub(fx::mul(self.m01, self.m12), fx::mul(self.m02, self.m11)),
            m10: fx::sub(fx::mul(self.m12, self.m20), fx::mul(self.m10, self.m22)),
            m11: fx::sub(fx::mul(self.m00, self.m22), fx::mul(self.m02, self.m20)),
            m12: fx::sub(fx::mul(self.m02, self.m10), fx::mul(self.m00, self.m12)),
            m20: fx::sub(fx::mul(self.m10, self.m21), fx::mul(self.m11, self.m20)),
            m21: fx::sub(fx::mul(self.m01, self.m20), fx::mul(self.m00, self.m21)),
            m22: fx::sub(fx::mul(self.m00, self.m11), fx::mul(self.m01, self.m10)),
        };
        adj.scale(f)
    }
}

/// Read one entry of the ghost view by indices.
pub open spec fn m3_get(a: Mat3S, i: int, j: int) -> int {
    if i == 0 {
        if j == 0 {
            a.m00
        } else if j == 1 {
            a.m01
        } else {
            a.m02
        }
    } else if i == 1 {
        if j == 0 {
            a.m10
        } else if j == 1 {
            a.m11
        } else {
            a.m12
        }
    } else {
        if j == 0 {
            a.m20
        } else if j == 1 {
            a.m21
        } else {
            a.m22
        }
    }
}

/// Row-column saturating scalar product.
fn rc(a0: i128, a1: i128, a2: i128, b0: i128, b1: i128, b2: i128) -> (r: i128)
    requires
        fx::fx_ok(a0) && fx::fx_ok(a1) && fx::fx_ok(a2),
        fx::fx_ok(b0) && fx::fx_ok(b1) && fx::fx_ok(b2),
    ensures
        r == m3_rc(a0 as int, a1 as int, a2 as int, b0 as int, b1 as int, b2 as int),
        fx::fx_ok(r),
{
    fx::add(fx::add(fx::mul(a0, b0), fx::mul(a1, b1)), fx::mul(a2, b2))
}

} // verus!
