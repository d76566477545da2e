//! Periodic unit cell and the minimum-image convention.

use crate::fx;
use crate::types::vectors::{v3_ok, v3_sub, Vec3S, Vector3D};
use vstd::prelude::*;

verus! {

/// The shape of a unit cell.
#[derive(Clone, Copy, Debug, PartialEq, Eq, Structural)]
pub enum CellShape {
    /// No periodic boundary: distances are plain differences.
    Infinite,
    /// Three orthogonal cell vectors.
    Orthorhombic,
}

/// A periodic unit cell. The three lengths are fixed-point values; an
/// infinite cell carries zero lengths.
#[derive(Clone, Copy, Debug, PartialEq, Eq, Structural)]
pub struct UnitCell {
    pub shape: CellShape,
    pub la: i128,
    pub lb: i128,
    pub lc: i128,
}

/// Well-formedness: an infinite cell has null lengths, an orthorhombic
/// cell has positive representable lengths.
pub open spec fn cell_ok(c: UnitCell) -> bool {
    match c.shape {
        CellShape::Infinite => c.la == 0 && c.lb == 0 && c.lc == 0,
        CellShape::Orthorhombic => 0 < c.la <= fx::FX_BOUND && 0 < c.lb <= fx::FX_BOUND && 0 < c.lc
            <= fx::FX_BOUND,
    }
}

/// Wrap one coordinate difference into `[-l/2, l/2)`.
pub open spec fn wrap1_s(d: int, l: int) -> int {
    let m = d % l;
    if 2 * m >= l {
        m - l
    } else {
        m
    }
}

/// The minimum-image vector between two positions under this cell.
pub open spec fn min_image_s(c: UnitCell, a: Vec3S, b: Vec3S) -> Vec3S {
    let d = v3_sub(b, a);
    match c.shape {
        CellShape::Infinite => d,
        CellShape::Orthorhombic => Vec3S {
            x: wrap1_s(d.x, c.la as int),
            y: wrap1_s(d.y, c.lb as int),
            z: wrap1_s(d.z, c.lc as int),
        },
    }
}

/// Cell volume: zero for an infinite cell.
pub open spec fn volume_s(c: UnitCell) -> int {
    match c.shape {
        CellShape::Infinite => 0,
        CellShape::Orthorhombic => fx::fx_mul(fx::fx_mul(c.la as int, c.lb as int), c.lc as int),
    }
}

/// The shortest cell vector length; zero for an infinite cell.
pub open spec fn min_length_s(c: UnitCell) -> int {
    match c.shape {
        CellShape::Infinite => 0,
        CellShape::Orthorhombic => vstd::math::min(
            vstd::math::min(c.la as int, c.lb as int),
            c.lc as int,
        ),
    }
}

/// Away from the exact half-cell boundary, wrapping is antisymmetric:
/// the image of `-d` is the negated image of `d`. On the boundary both
/// map to `-l/2`, which is why the hypothesis excludes it.
pub proof fn lemma_wrap1_antisymmetric(d: int, l: int)
    requires
        l > 0,
        2 * (d % l) != l,
    ensures
        wrap1_s(-d, l) == -wrap1_s(d, l),
{
    let m = d % l;
    let q = d / l;
    vstd::arithmetic::div_mod::lemma_fundamental_div_mod(d, l);
    vstd::arithmetic::div_mod::lemma_mod_bound(d, l);
    assert(-d == l * (-q - 1) + (l - m)) by (nonlinear_arith)
        requires
            d == l * q + m,
    ;
    vstd::arithmetic::div_mod::lemma_mod_multiples_vanish(-q - 1, l - m, l);
    if m == 0 {
        assert((-d) % l == (l + 0) % l) by {
            assert(l - m == l);
        }
        vstd::arithmetic::div_mod::lemma_mod_self_0(l);
        vstd::arithmetic::div_mod::lemma_mod_add_multiples_vanish(0, l);
        vstd::arithmetic::div_mod::lemma_small_mod(0, l as nat);
    } else {
        vstd::arithmetic::div_mod::lemma_small_mod((l - m) as nat, l as nat);
    }
}

/// The minimum image is antisymmetric in its endpoints whenever no
/// separation component falls on the exact half-cell boundary.
pub proof fn lemma_min_image_antisymmetric(c: UnitCell, a: Vec3S, b: Vec3S)
    requires
        cell_ok(c),
        c.shape == CellShape::Orthorhombic ==> {
            let d = v3_sub(b, a);
            &&& 2 * (d.x % (c.la as int)) != c.la
            &&& 2 * (d.y % (c.lb as int)) != c.lb
            &&& 2 * (d.z % (c.lc as int)) != c.lc
        },
    ensures
        min_image_s(c, b, a) == (Vec3S {
            x: -min_image_s(c, a, b).x,
            y: -min_image_s(c, a, b).y,
            z: -min_image_s(c, a, b).z,
        }),
{
    let d = v3_sub(b, a);
    let e = v3_sub(a, b);
    assert(e.x == -d.x && e.y == -d.y && e.z == -d.z);
    match c.shape {
        CellShape::Infinite => {},
        CellShape::Orthorhombic => {
            lemma_wrap1_antisymmetric(d.x, c.la as int);
            lemma_wrap1_antisymmetric(d.y, c.lb as int);
            lemma_wrap1_antisymmetric(d.z, c.lc as int);
        },
    }
}

fn wrap1(d: i128, l: i128) -> (r: i128)
    requires
        fx::fx_ok(d),
        0 < l <= fx::FX_BOUND,
    ensures
        r == wrap1_s(d as int, l as int),
        fx::fx_ok(r),
{
    let m: i128 = crate::math::emod(d, l);
    if 2 * m >= l {
        m - l
    } else {
        m
    }
}

impl UnitCell {
    /// An infinite (non-periodic) cell.
    pub fn new() -> (r: UnitCell)
        ensures
            r.shape == CellShape::Infinite,
            cell_ok(r),
    {
        UnitCell { shape: CellShape::Infinite, la: 0, lb: 0, lc: 0 }
    }

    /// An orthorhombic cell with lengths `a`, `b`, `c`. A non-positive or
    /// unrepresentable length is a configuration error.
    pub fn ortho(a: i128, b: i128, c: i128) -> (r: Result<UnitCell, crate::sys::ConfigError>)
        ensures
            (0 < a <= fx::FX_BOUND && 0 < b <= fx::FX_BOUND && 0 < c <= fx::FX_BOUND) <==> r is Ok,
            r matches Ok(cell) ==> cell == (UnitCell {
                shape: CellShape::Orthorhombic,
                la: a,
                lb: b,
                lc: c,
            }) && cell_ok(cell),
            r is Err ==> r == Result::<UnitCell, crate::sys::ConfigError>::Err(
                crate::sys::ConfigError::NonPositiveCell,
            ),
    {
        if 0 < a && a <= fx::FX_BOUND && 0 < b && b <= fx::FX_BOUND && 0 < c && c <= fx::FX_BOUND {
            Ok(UnitCell { shape: CellShape::Orthorhombic, la: a, lb: b, lc: c })
        } else {
            Err(crate::sys::ConfigError::NonPositiveCell)
        }
    }

    /// A cubic cell with side `a`.
    pub fn cubic(a: i128) -> (r: Result<UnitCell, crate::sys::ConfigError>)
        ensures
            (0 < a <= fx::FX_BOUND) <==> r is Ok,
            r matches Ok(cell) ==> cell == (UnitCell {
                shape: CellShape::Orthorhombic,
                la: a,
                lb: a,
                lc: a,
            }) && cell_ok(cell),
    {
        UnitCell::ortho(a, a, a)
    }

    /// The cell shape.
    pub fn shape(&self) -> (r: CellShape)
        ensures
            r == self.shape,
    {
        self.shape
    }

    /// First cell length.
    pub fn a(&self) -> (r: i128)
        ensures
            r == self.la,
    {
        self.la
    }

    /// Second cell length.
    pub fn b(&self) -> (r: i128)
        ensures
            r == self.lb,
    {
        self.lb
    }

    /// Third cell length.
    pub fn c(&self) -> (r: i128)
        ensures
            r == self.lc,
    {
        self.lc
    }

    /// First cell angle; always a right angle for these shapes.
    pub fn alpha(&self) -> (r: i128)
        ensures
            r == fx::fx_of_int(90),
    {
        fx::of_int(90)
    }

    /// Second cell angle; always a right angle for these shapes.
    pub fn beta(&self) -> (r: i128)
        ensures
            r == fx::fx_of_int(90),
    {
        fx::of_int(90)
    }

    /// Third cell angle; always a right angle for these shapes.
    pub fn gamma(&self) -> (r: i128)
        ensures
            r == fx::fx_of_int(90),
    {
        fx::of_int(90)
    }

    /// Cell volume.
    pub fn volume(&self) -> (r: i128)
        requires
            cell_ok(*self),
        ensures
            r == volume_s(*self),
            fx::fx_ok(r),
            r >= 0,
    {
        match self.shape {
            CellShape::Infinite => 0,
            CellShape::Orthorhombic => {
                let ab = fx::mul(self.la, self.lb);
                proof {
                    assert(self.la * self.lb >= 0) by (nonlinear_arith)
                        requires
                            self.la > 0 && self.lb > 0,
                    ;
                    assert(ab * self.lc >= 0) by (nonlinear_arith)
                        requires
                            ab >= 0 && self.lc > 0,
                    ;
                }
                fx::mul(ab, self.lc)
            },
        }
    }

    /// The shortest cell vector length.
    pub fn min_length(&self) -> (r: i128)
        requires
            cell_ok(*self),
        ensures
            r == min_length_s(*self),
    {
        match self.shape {
            CellShape::Infinite => 0,
            CellShape::Orthorhombic => {
                let m = if self.la < self.lb {
                    self.la
                } else {
                    self.lb
                };
                if m < self.lc {
                    m
                } else {
                    self.lc
                }
            },
        }
    }

    /// The minimum-image vector from `a` to `b`.
    pub fn min_image(&self, a: &Vector3D, b: &Vector3D) -> (r: Vector3D)
        requires
            cell_ok(*self),
            v3_ok(*a),
            v3_ok(*b),
        ensures
            r@ == min_image_s(*self, a@, b@),
            v3_ok(r),
    {
        let d = b.sub_v(a);
        match self.shape {
            CellShape::Infinite => d,
            CellShape::Orthorhombic => Vector3D {
                x: wrap1(d.x, self.la),
                y: wrap1(d.y, self.lb),
                z: wrap1(d.z, self.lc),
            },
        }
    }
}

} // verus!
