//! Fixed-point scalar arithmetic.
//!
//! A quantity is an `i128` holding `value * 2^40`. Every point operation
//! (addition, subtraction, multiplication, division) truncates toward zero
//! and saturates at `FX_BOUND`, the edge of the representable range; the
//! saturated value plays the role that infinity plays for floating point.
//! Each operation is specified exactly, so every computation built from
//! these operations is a deterministic function of its inputs.

use vstd::math::abs;
use vstd::prelude::*;

verus! {

/// Raw representation of 1.0: the fixed-point scale, 2^40.
pub const FX_SCALE: i128 = 1099511627776;

/// Saturation bound of the representable range: 2^62.
pub const FX_BOUND: i128 = 4611686018427387904;

/// Bound on a row of at most 2^20 bounded terms: 2^82.
pub const FX_ROW_CAP: i128 = 4835703278458516698824704;

/// Bound on a pairwise term summed over at most 1024 interactions: 2^72.
pub const FX_PAIR_CAP: i128 = 4722366482869645213696;

/// Bound on a row of at most 2^20 pairwise terms: 2^92.
pub const FX_PAIR_ROW_CAP: i128 = 4951760157141521099596496896;

/// Twice the saturation bound: 2^63.
pub const FX_BOUND2: i128 = 9223372036854775808;

/// A raw value is in the representable range.
pub open spec fn fx_ok(a: i128) -> bool {
    -FX_BOUND <= a && a <= FX_BOUND
}

/// Truncating (toward zero) division, for any non-zero divisor.
pub open spec fn fx_tdiv(a: int, b: int) -> int
    recommends
        b != 0,
{
    let m = (abs(a) / abs(b)) as int;
    if (a < 0) != (b < 0) {
        -m
    } else {
        m
    }
}

/// Clamp an unbounded intermediate into the representable range.
pub open spec fn fx_clamp(v: int) -> int {
    if v > FX_BOUND {
        FX_BOUND as int
    } else if v < -FX_BOUND {
        -FX_BOUND as int
    } else {
        v
    }
}

/// Saturating addition.
pub open spec fn fx_add(a: int, b: int) -> int {
    fx_clamp(a + b)
}

/// Saturating subtraction.
pub open spec fn fx_sub(a: int, b: int) -> int {
    fx_clamp(a - b)
}

/// Saturating fixed-point product: `a * b / 2^40`, truncated toward zero.
pub open spec fn fx_mul(a: int, b: int) -> int {
    fx_clamp(fx_tdiv(a * b, FX_SCALE as int))
}

/// Saturating fixed-point quotient: `a * 2^40 / b`, truncated toward zero.
/// Division by zero saturates, carrying the sign of the dividend: the
/// fixed-point analogue of the infinity a float division would produce.
pub open spec fn fx_div(a: int, b: int) -> int {
    if b == 0 {
        if a >= 0 {
            FX_BOUND as int
        } else {
            -FX_BOUND as int
        }
    } else {
        fx_clamp(fx_tdiv(a * FX_SCALE, b))
    }
}

/// Exact conversion from a small integer count or coordinate.
pub open spec fn fx_of_int(n: int) -> int {
    fx_clamp(n * FX_SCALE)
}

/// Conversion from thousandths of a unit.
pub open spec fn fx_of_milli(m: int) -> int {
    fx_clamp(fx_tdiv(m * FX_SCALE, 1000))
}

/// Readout in thousandths of a unit, truncated toward zero.
pub open spec fn fx_to_milli(a: int) -> int {
    fx_tdiv(a * 1000, FX_SCALE as int)
}

/// The saturating product of a value with itself is non-negative, and so
/// is a sum of such products.
pub proof fn lemma_square_nonneg(x: int, y: int, z: int)
    ensures
        fx_mul(x, x) >= 0,
        fx_add(fx_add(fx_mul(x, x), fx_mul(y, y)), fx_mul(z, z)) >= 0,
{
    assert(x * x >= 0 && y * y >= 0 && z * z >= 0) by (nonlinear_arith);
}

/// A saturating product of non-negative factors is non-negative.
pub proof fn lemma_fx_mul_nonneg(a: int, b: int)
    requires
        a >= 0,
        b >= 0,
    ensures
        fx_mul(a, b) >= 0,
{
    assert(a * b >= 0) by (nonlinear_arith)
        requires
            a >= 0 && b >= 0,
    ;
}

/// A saturating quotient of a non-negative value by a non-negative one
/// is non-negative.
pub proof fn lemma_fx_div_nonneg(a: int, b: int)
    requires
        a >= 0,
        b >= 0,
    ensures
        fx_div(a, b) >= 0,
{
    if b != 0 {
        assert(a * FX_SCALE >= 0) by (nonlinear_arith)
            requires
                a >= 0,
        ;
    }
}

/// The saturating product changes sign with its first factor.
pub proof fn lemma_fx_mul_neg_left(a: int, b: int)
    ensures
        fx_mul(-a, b) == -fx_mul(a, b),
{
    assert((-a) * b == -(a * b)) by (nonlinear_arith);
}

/// The saturating quotient changes sign with its dividend, for a
/// non-zero divisor.
pub proof fn lemma_fx_div_neg_left(a: int, b: int)
    requires
        b != 0,
    ensures
        fx_div(-a, b) == -fx_div(a, b),
{
    assert((-a) * FX_SCALE == -(a * FX_SCALE)) by (nonlinear_arith);
}

/// The saturating product changes sign with its second factor.
pub proof fn lemma_fx_mul_neg_right(a: int, b: int)
    ensures
        fx_mul(a, -b) == -fx_mul(a, b),
{
    assert(a * (-b) == -(a * b)) by (nonlinear_arith);
}

/// A lower bound on a saturating product of non-negative factors, for a
/// bound within the representable range.
pub proof fn lemma_fx_mul_lb(a: int, b: int, lb: int)
    requires
        a >= 0,
        b >= 0,
        0 <= lb <= FX_BOUND,
        a * b >= lb * FX_SCALE,
    ensures
        fx_mul(a, b) >= lb,
{
    assert((a * b) / (FX_SCALE as int) >= lb) by (nonlinear_arith)
        requires
            a * b >= lb * FX_SCALE && lb >= 0,
    ;
    assert(fx_tdiv(a * b, FX_SCALE as int) == (a * b) / (FX_SCALE as int)) by (nonlinear_arith)
        requires
            a * b >= 0,
    ;
}

/// An upper bound on a saturating product of non-negative factors.
pub proof fn lemma_fx_mul_ub(a: int, b: int, ub: int)
    requires
        a >= 0,
        b >= 0,
        ub >= 0,
        a * b <= ub * FX_SCALE,
    ensures
        fx_mul(a, b) <= ub,
{
    assert((a * b) / (FX_SCALE as int) <= ub) by (nonlinear_arith)
        requires
            0 <= a * b <= ub * FX_SCALE && ub >= 0,
    ;
    assert(fx_tdiv(a * b, FX_SCALE as int) == (a * b) / (FX_SCALE as int)) by (nonlinear_arith)
        requires
            a * b >= 0,
    ;
}

/// A lower bound on a saturating quotient of non-negative by positive,
/// for a bound within the representable range.
pub proof fn lemma_fx_div_lb(a: int, b: int, lb: int)
    requires
        a >= 0,
        b > 0,
        0 <= lb <= FX_BOUND,
        a * FX_SCALE >= lb * b,
    ensures
        fx_div(a, b) >= lb,
{
    assert((a * FX_SCALE) / b >= lb) by (nonlinear_arith)
        requires
            a * FX_SCALE >= lb * b && b > 0 && lb >= 0,
    ;
    assert(fx_tdiv(a * FX_SCALE, b) == (a * FX_SCALE) / b) by (nonlinear_arith)
        requires
            a * FX_SCALE >= 0 && b > 0,
    ;
}

/// An upper bound on a saturating quotient of non-negative by positive.
pub proof fn lemma_fx_div_ub(a: int, b: int, ub: int)
    requires
        a >= 0,
        b > 0,
        ub >= 0,
        a * FX_SCALE < (ub + 1) * b,
    ensures
        fx_div(a, b) <= ub,
{
    assert((a * FX_SCALE) / b <= ub) by (nonlinear_arith)
        requires
            0 <= a * FX_SCALE < (ub + 1) * b && b > 0 && ub >= 0,
    ;
    assert(fx_tdiv(a * FX_SCALE, b) == (a * FX_SCALE) / b) by (nonlinear_arith)
        requires
            a * FX_SCALE >= 0 && b > 0,
    ;
}

pub fn clamp(v: i128) -> (r: i128)
    ensures
        r == fx_clamp(v as int),
        fx_ok(r),
{
    if v > FX_BOUND {
        FX_BOUND
    } else if v < -FX_BOUND {
        -FX_BOUND
    } else {
        v
    }
}

pub fn add(a: i128, b: i128) -> (r: i128)
    requires
        fx_ok(a),
        fx_ok(b),
    ensures
        r == fx_add(a as int, b as int),
        fx_ok(r),
{
    clamp(a + b)
}

pub fn sub(a: i128, b: i128) -> (r: i128)
    requires
        fx_ok(a),
        fx_ok(b),
    ensures
        r == fx_sub(a as int, b as int),
        fx_ok(r),
{
    clamp(a - b)
}

pub fn neg(a: i128) -> (r: i128)
    requires
        fx_ok(a),
    ensures
        r == -a,
        fx_ok(r),
{
    -a
}

pub fn abs_val(a: i128) -> (r: i128)
    requires
        fx_ok(a),
    ensures
        r == abs(a as int),
        fx_ok(r),
{
    if a < 0 {
        -a
    } else {
        a
    }
}

pub fn mul(a: i128, b: i128) -> (r: i128)
    requires
        fx_ok(a),
        fx_ok(b),
    ensures
        r == fx_mul(a as int, b as int),
        fx_ok(r),
{
    proof {
        assert((-FX_BOUND <= a <= FX_BOUND && -FX_BOUND <= b <= FX_BOUND) ==> (a * b
            <= FX_BOUND * FX_BOUND && a * b >= -(FX_BOUND * FX_BOUND))) by (nonlinear_arith);
    }
    let p: i128 = a * b;
    let q: i128 = p / FX_SCALE;
    proof {
        assert(q == fx_tdiv(p as int, FX_SCALE as int));
    }
    clamp(q)
}

pub fn div(a: i128, b: i128) -> (r: i128)
    requires
        fx_ok(a),
        fx_ok(b),
    ensures
        r == fx_div(a as int, b as int),
        fx_ok(r),
{
    if b == 0 {
        if a >= 0 {
            FX_BOUND
        } else {
            -FX_BOUND
        }
    } else {
        let ma: i128 = if a < 0 {
            -a
        } else {
            a
        };
        let mb: i128 = if b < 0 {
            -b
        } else {
            b
        };
        proof {
            assert((0 <= ma <= FX_BOUND) ==> (ma * FX_SCALE <= FX_BOUND * FX_SCALE && ma * FX_SCALE
                >= 0)) by (nonlinear_arith);
        }
        let p: i128 = ma * FX_SCALE;
        let q: i128 = p / mb;
        let s: i128 = if (a < 0) != (b < 0) {
            -q
        } else {
            q
        };
        proof {
            assert(abs((a * FX_SCALE) as int) == ma * FX_SCALE) by (nonlinear_arith)
                requires
                    ma == abs(a as int) && FX_SCALE > 0,
            ;
            assert(((a * FX_SCALE) < 0) == (a < 0 && a * FX_SCALE != 0)) by (nonlinear_arith)
                requires
                    FX_SCALE > 0,
            ;
            assert(s == fx_tdiv((a * FX_SCALE) as int, b as int));
        }
        clamp(s)
    }
}

pub fn of_int(n: i64) -> (r: i128)
    ensures
        r == fx_of_int(n as int),
        fx_ok(r),
{
    proof {
        assert((-9223372036854775808 <= n <= 9223372036854775807) ==> ((n as i128) * FX_SCALE
            <= 9223372036854775808i128 * FX_SCALE && (n as i128) * FX_SCALE
            >= -9223372036854775808i128 * FX_SCALE)) by (nonlinear_arith);
    }
    clamp((n as i128) * FX_SCALE)
}

pub fn of_milli(m: i64) -> (r: i128)
    ensures
        r == fx_of_milli(m as int),
        fx_ok(r),
{
    proof {
        assert((-9223372036854775808 <= m <= 9223372036854775807) ==> ((m as i128) * FX_SCALE
            <= 9223372036854775808i128 * FX_SCALE && (m as i128) * FX_SCALE
            >= -9223372036854775808i128 * FX_SCALE)) by (nonlinear_arith);
    }
    let p: i128 = (m as i128) * FX_SCALE;
    let q: i128 = p / 1000;
    proof {
        assert(q == fx_tdiv(p as int, 1000));
    }
    clamp(q)
}

pub fn to_milli(a: i128) -> (r: i128)
    requires
        fx_ok(a),
    ensures
        r == fx_to_milli(a as int),
{
    proof {
        assert((-FX_BOUND <= a <= FX_BOUND) ==> (a * 1000 <= FX_BOUND * 1000 && a * 1000
            >= -(FX_BOUND * 1000))) by (nonlinear_arith);
    }
    let p: i128 = a * 1000;
    let q: i128 = p / FX_SCALE;
    proof {
        assert(q == fx_tdiv(p as int, FX_SCALE as int));
    }
    q
}

} // verus!
