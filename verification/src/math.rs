//! Special functions on fixed-point values: square root, decaying
//! exponential, sine and cosine of a fraction of a turn, and the
//! complementary error function.
//!
//! Each function is a deterministic truncated-series approximation built
//! from the saturating operations of [`crate::fx`], and is specified
//! exactly: the spec function *is* the approximation, step for step, so
//! two evaluations on equal inputs are provably equal. Approximation
//! quality (a few units in the twelfth decimal place over the ranges the
//! solvers use) is established by the test suite, not by proof.

use crate::fx;
use crate::fx::{FX_BOUND, FX_SCALE};
use vstd::math::abs;
use vstd::prelude::*;

verus! {

/// ln 2, rounded to the fixed-point scale.
pub const FX_LN2: i128 = 762123384786;

/// 2*pi, rounded to the fixed-point scale.
pub const FX_TWO_PI: i128 = 6908435304715;

/// pi, rounded to the fixed-point scale.
pub const FX_PI: i128 = 3454217652358;

/// sqrt(pi), rounded to the fixed-point scale.
pub const FX_SQRT_PI: i128 = 1948833618767;

/// 2 / sqrt(pi), rounded to the fixed-point scale.
pub const FX_TWO_OVER_SQRT_PI: i128 = 1240666014762;

/// 1 / sqrt(pi), rounded to the fixed-point scale.
pub const FX_INV_SQRT_PI: i128 = 620333007381;

/// A quarter of a turn in raw units: `FX_SCALE / 4`.
pub const FX_QUARTER_TURN: i128 = 274877906944;

/// Arguments at or beyond this point make the decaying exponential
/// indistinguishable from zero at this resolution: 48.0.
pub const FX_EXP_FLOOR: i128 = 52776558133248;

/// Integer square root, rounded down.
pub open spec fn isqrt_s(n: nat) -> nat
    decreases n,
{
    if n == 0 {
        0
    } else {
        let r = 2 * isqrt_s(n / 4);
        if (r + 1) * (r + 1) <= n {
            r + 1
        } else {
            r
        }
    }
}

pub proof fn lemma_isqrt_s(n: nat)
    ensures
        isqrt_s(n) * isqrt_s(n) <= n,
        n < (isqrt_s(n) + 1) * (isqrt_s(n) + 1),
    decreases n,
{
    if n == 0 {
        assert(n < (isqrt_s(n) + 1) * (isqrt_s(n) + 1)) by (nonlinear_arith)
            requires
                n == 0 && isqrt_s(n) == 0,
        ;
    } else {
        lemma_isqrt_s(n / 4);
        let r0 = isqrt_s(n / 4);
        assert(4 * (n / 4) <= n < 4 * (n / 4) + 4) by (nonlinear_arith);
        assert((2 * r0) * (2 * r0) == 4 * (r0 * r0)) by (nonlinear_arith);
        assert((2 * r0 + 2) * (2 * r0 + 2) == 4 * ((r0 + 1) * (r0 + 1))) by (nonlinear_arith);
        assert(4 * (r0 * r0) <= 4 * (n / 4)) by (nonlinear_arith)
            requires
                r0 * r0 <= n / 4,
        ;
        assert(4 * (n / 4) + 4 <= 4 * ((r0 + 1) * (r0 + 1))) by (nonlinear_arith)
            requires
                n / 4 < (r0 + 1) * (r0 + 1),
        ;
        if (2 * r0 + 1) * (2 * r0 + 1) <= n {
            assert(isqrt_s(n) == 2 * r0 + 1);
            assert(n < (2 * r0 + 2) * (2 * r0 + 2));
        } else {
            assert(isqrt_s(n) == 2 * r0);
        }
    }
}

pub fn isqrt(n: u128) -> (r: u128)
    ensures
        r == isqrt_s(n as nat),
        r * r <= n,
    decreases n,
{
    if n == 0 {
        0
    } else {
        let r0: u128 = isqrt(n / 4);
        proof {
            lemma_isqrt_s((n / 4) as nat);
            lemma_isqrt_s(n as nat);
            assert(4 * ((n / 4) as nat) <= n) by (nonlinear_arith);
            assert(r0 * r0 <= (n / 4) as nat ==> (2 * r0) * (2 * r0) <= 4 * ((n / 4) as nat))
                by (nonlinear_arith);
            assert(isqrt_s(n as nat) <= n) by (nonlinear_arith)
                requires
                    isqrt_s(n as nat) * isqrt_s(n as nat) <= n,
            ;
        }
        let r: u128 = 2 * r0;
        if n / (r + 1) >= r + 1 {
            proof {
                assert((r + 1) * (r + 1) <= n) by (nonlinear_arith)
                    requires
                        (n as int) / ((r as int) + 1) >= (r as int) + 1,
                ;
            }
            r + 1
        } else {
            proof {
                assert(!((r + 1) * (r + 1) <= n)) by (nonlinear_arith)
                    requires
                        (n as int) / ((r as int) + 1) < (r as int) + 1,
            ;
            }
            r
        }
    }
}

/// Fixed-point square root of a non-negative value.
pub open spec fn fx_sqrt(a: int) -> int {
    isqrt_s((a * FX_SCALE) as nat) as int
}

pub fn sqrt(a: i128) -> (r: i128)
    requires
        fx::fx_ok(a),
        a >= 0,
    ensures
        r == fx_sqrt(a as int),
        fx::fx_ok(r),
        r >= 0,
{
    proof {
        assert(0 <= a * FX_SCALE <= FX_BOUND * FX_SCALE) by (nonlinear_arith)
            requires
                0 <= a <= FX_BOUND,
        ;
    }
    let m: u128 = (a * FX_SCALE) as u128;
    let s: u128 = isqrt(m);
    proof {
        lemma_isqrt_s(m as nat);
        assert(s <= FX_BOUND) by (nonlinear_arith)
            requires
                s * s <= FX_BOUND * FX_SCALE && FX_SCALE <= FX_BOUND,
        ;
    }
    s as i128
}

/// Truncating division by a small positive count.
pub fn divi(a: i128, n: i128) -> (r: i128)
    requires
        fx::fx_ok(a),
        n > 0,
    ensures
        r == fx::fx_tdiv(a as int, n as int),
        fx::fx_ok(r),
        abs(r as int) <= abs(a as int),
{
    proof {
        assert((abs(a as int) as int) / (n as int) <= abs(a as int) as int) by (nonlinear_arith)
            requires
                n >= 1,
        ;
    }
    if a >= 0 {
        a / n
    } else {
        -((-a) / n)
    }
}

/// Euclidean remainder by a positive modulus; the result is in `[0, n)`.
pub fn emod(a: i128, n: i128) -> (r: i128)
    requires
        fx::fx_ok(a),
        0 < n <= FX_BOUND,
    ensures
        r == (a as int) % (n as int),
        0 <= r < n,
{
    let m: i128 = a % n;
    proof {
        if a >= 0 {
            assert(m == (a as int) % (n as int));
        } else {
            let u = (-(a as int)) % (n as int);
            let d = (-(a as int)) / (n as int);
            assert(m == -u);
            vstd::arithmetic::div_mod::lemma_fundamental_div_mod(-(a as int), n as int);
            assert(a as int == (n as int) * (-d) + (-u)) by (nonlinear_arith)
                requires
                    -(a as int) == (n as int) * d + u,
            ;
            vstd::arithmetic::div_mod::lemma_mod_multiples_vanish(-d, -u, n as int);
            if u == 0 {
                assert((0int) % (n as int) == 0) by (nonlinear_arith)
                    requires
                        n > 0,
                ;
            } else {
                vstd::arithmetic::div_mod::lemma_mod_add_multiples_vanish(-u, n as int);
                vstd::arithmetic::div_mod::lemma_small_mod((n - u) as nat, n as nat);
            }
        }
    }
    if m < 0 {
        m + n
    } else {
        m
    }
}

/// One Taylor step for the exponential: terms of `exp(f)`, `f` in `[0, 1)`.
pub open spec fn exp_taylor(f: int, i: nat, term: int, acc: int) -> int
    decreases 21 - i,
{
    if i >= 21 {
        acc
    } else {
        let t = fx::fx_tdiv(fx::fx_mul(term, f), i as int);
        exp_taylor(f, i + 1, t, fx::fx_add(acc, t))
    }
}

/// Iterated halving: `v / 2^k`, truncating at each step.
pub open spec fn fx_halve(v: int, k: nat) -> int
    decreases k,
{
    if k == 0 {
        v
    } else {
        fx_halve(fx::fx_tdiv(v, 2), (k - 1) as nat)
    }
}

/// `exp(-x)` for non-negative `x`: range reduction by powers of two, a
/// truncated Taylor series for the fractional part, and a reciprocal.
pub open spec fn fx_exp_neg(x: int) -> int {
    if x >= FX_EXP_FLOOR {
        0
    } else {
        let k = fx::fx_tdiv(x, FX_LN2 as int);
        let f = x - k * FX_LN2;
        let e = exp_taylor(f, 1, FX_SCALE as int, FX_SCALE as int);
        fx_halve(fx::fx_div(FX_SCALE as int, e), k as nat)
    }
}

pub fn exp_neg(x: i128) -> (r: i128)
    requires
        fx::fx_ok(x),
        x >= 0,
    ensures
        r == fx_exp_neg(x as int),
        fx::fx_ok(r),
        r >= 0,
{
    if x >= FX_EXP_FLOOR {
        0
    } else {
        let k: i128 = x / FX_LN2;
        proof {
            assert(k == fx::fx_tdiv(x as int, FX_LN2 as int));
            assert(0 <= k < 77);
            assert(k * FX_LN2 <= x) by (nonlinear_arith)
                requires
                    k == (x as int) / (FX_LN2 as int) && x >= 0 && FX_LN2 > 0,
            ;
        }
        let f: i128 = x - k * FX_LN2;
        proof {
            assert(x < (k + 1) * FX_LN2) by (nonlinear_arith)
                requires
                    k == (x as int) / (FX_LN2 as int) && x >= 0 && FX_LN2 > 0,
            ;
        }
        let mut term: i128 = FX_SCALE;
        let mut acc: i128 = FX_SCALE;
        let mut i: i128 = 1;
        let ghost spec_e: int = exp_taylor(f as int, 1, FX_SCALE as int, FX_SCALE as int);
        while i < 21
            invariant
                1 <= i <= 21,
                fx::fx_ok(term),
                fx::fx_ok(acc),
                fx::fx_ok(f),
                term >= 0,
                acc >= FX_SCALE,
                0 <= f,
                exp_taylor(f as int, i as nat, term as int, acc as int) == spec_e,
            decreases 21 - i,
        {
            let t: i128 = divi(fx::mul(term, f), i);
            acc = fx::add(acc, t);
            term = t;
            i = i + 1;
        }
        let mut r: i128 = fx::div(FX_SCALE, acc);
        let mut j: i128 = k;
        let ghost spec_r: int = fx_halve(r as int, k as nat);
        while j > 0
            invariant
                0 <= j <= k,
                fx::fx_ok(r),
                r >= 0,
                fx_halve(r as int, j as nat) == spec_r,
            decreases j,
        {
            r = r / 2;
            j = j - 1;
        }
        r
    }
}

/// Taylor partial sums for the cosine on a quarter period.
pub open spec fn cos_taylor(th2: int, k: nat, term: int, acc: int) -> int
    decreases 14 - k,
{
    if k >= 14 {
        acc
    } else {
        let t = fx::fx_tdiv(fx::fx_mul(term, th2), ((2 * k + 1) * (2 * k + 2)) as int);
        let a = if k % 2 == 0 {
            fx::fx_sub(acc, t)
        } else {
            fx::fx_add(acc, t)
        };
        cos_taylor(th2, k + 1, t, a)
    }
}

/// Taylor partial sums for the sine on a quarter period.
pub open spec fn sin_taylor(th2: int, k: nat, term: int, acc: int) -> int
    decreases 14 - k,
{
    if k >= 14 {
        acc
    } else {
        let t = fx::fx_tdiv(fx::fx_mul(term, th2), ((2 * k + 2) * (2 * k + 3)) as int);
        let a = if k % 2 == 0 {
            fx::fx_sub(acc, t)
        } else {
            fx::fx_add(acc, t)
        };
        sin_taylor(th2, k + 1, t, a)
    }
}

/// Cosine of an angle given as a radian value in `[0, pi/2]`.
pub open spec fn fx_cos_quarter(th: int) -> int {
    cos_taylor(fx::fx_mul(th, th), 0, FX_SCALE as int, FX_SCALE as int)
}

/// Sine of an angle given as a radian value in `[0, pi/2]`.
pub open spec fn fx_sin_quarter(th: int) -> int {
    sin_taylor(fx::fx_mul(th, th), 0, th, th)
}

fn cos_quarter(th: i128) -> (r: i128)
    requires
        fx::fx_ok(th),
        0 <= th,
    ensures
        r == fx_cos_quarter(th as int),
        fx::fx_ok(r),
{
    let th2: i128 = fx::mul(th, th);
    let mut term: i128 = FX_SCALE;
    let mut acc: i128 = FX_SCALE;
    let mut k: i128 = 0;
    let ghost spec_c: int = cos_taylor(th2 as int, 0, FX_SCALE as int, FX_SCALE as int);
    while k < 14
        invariant
            0 <= k <= 14,
            fx::fx_ok(term),
            fx::fx_ok(acc),
            fx::fx_ok(th2),
            cos_taylor(th2 as int, k as nat, term as int, acc as int) == spec_c,
        decreases 14 - k,
    {
        proof {
            assert(0 < (2 * k + 1) * (2 * k + 2) <= 812) by (nonlinear_arith)
                requires
                    0 <= k < 14,
            ;
        }
        let t: i128 = divi(fx::mul(term, th2), (2 * k + 1) * (2 * k + 2));
        acc = if k % 2 == 0 {
            fx::sub(acc, t)
        } else {
            fx::add(acc, t)
        };
        term = t;
        k = k + 1;
    }
    acc
}

fn sin_quarter(th: i128) -> (r: i128)
    requires
        fx::fx_ok(th),
        0 <= th,
    ensures
        r == fx_sin_quarter(th as int),
        fx::fx_ok(r),
{
    let th2: i128 = fx::mul(th, th);
    let mut term: i128 = th;
    let mut acc: i128 = th;
    let mut k: i128 = 0;
    let ghost spec_s: int = sin_taylor(th2 as int, 0, th as int, th as int);
    while k < 14
        invariant
            0 <= k <= 14,
            fx::fx_ok(term),
            fx::fx_ok(acc),
            fx::fx_ok(th2),
            sin_taylor(th2 as int, k as nat, term as int, acc as int) == spec_s,
        decreases 14 - k,
    {
        proof {
            assert(0 < (2 * k + 2) * (2 * k + 3) <= 870) by (nonlinear_arith)
                requires
                    0 <= k < 14,
            ;
        }
        let t: i128 = divi(fx::mul(term, th2), (2 * k + 2) * (2 * k + 3));
        acc = if k % 2 == 0 {
            fx::sub(acc, t)
        } else {
            fx::add(acc, t)
        };
        term = t;
        k = k + 1;
    }
    acc
}

/// Cosine of `2*pi*t`, where `t` is a fraction of a turn; any `t` in the
/// representable range is first reduced to `[0, 1)`.
pub open spec fn fx_cos_turn(t: int) -> int {
    let m = t % (FX_SCALE as int);
    let q = m / (FX_QUARTER_TURN as int);
    let th = fx::fx_mul(m - q * FX_QUARTER_TURN, FX_TWO_PI as int);
    if q == 0 {
        fx_cos_quarter(th)
    } else if q == 1 {
        -fx_sin_quarter(th)
    } else if q == 2 {
        -fx_cos_quarter(th)
    } else {
        fx_sin_quarter(th)
    }
}

/// Sine of `2*pi*t`, where `t` is a fraction of a turn.
pub open spec fn fx_sin_turn(t: int) -> int {
    let m = t % (FX_SCALE as int);
    let q = m / (FX_QUARTER_TURN as int);
    let th = fx::fx_mul(m - q * FX_QUARTER_TURN, FX_TWO_PI as int);
    if q == 0 {
        fx_sin_quarter(th)
    } else if q == 1 {
        fx_cos_quarter(th)
    } else if q == 2 {
        -fx_sin_quarter(th)
    } else {
        -fx_cos_quarter(th)
    }
}

pub fn cos_turn(t: i128) -> (r: i128)
    requires
        fx::fx_ok(t),
    ensures
        r == fx_cos_turn(t as int),
        fx::fx_ok(r),
{
    let m: i128 = emod(t, FX_SCALE);
    let q: i128 = m / FX_QUARTER_TURN;
    let u: i128 = m - q * FX_QUARTER_TURN;
    let th: i128 = fx::mul(u, FX_TWO_PI);
    if q == 0 {
        cos_quarter(th)
    } else if q == 1 {
        -sin_quarter(th)
    } else if q == 2 {
        -cos_quarter(th)
    } else {
        sin_quarter(th)
    }
}

pub fn sin_turn(t: i128) -> (r: i128)
    requires
        fx::fx_ok(t),
    ensures
        r == fx_sin_turn(t as int),
        fx::fx_ok(r),
{
    let m: i128 = emod(t, FX_SCALE);
    let q: i128 = m / FX_QUARTER_TURN;
    let u: i128 = m - q * FX_QUARTER_TURN;
    let th: i128 = fx::mul(u, FX_TWO_PI);
    if q == 0 {
        sin_quarter(th)
    } else if q == 1 {
        cos_quarter(th)
    } else if q == 2 {
        -sin_quarter(th)
    } else {
        -cos_quarter(th)
    }
}

/// Taylor partial sums for `erf` below 2: the running power `u` is
/// `x^(2k+1) / k!` and the accumulated series alternates.
pub open spec fn erf_taylor(x2: int, k: nat, u: int, acc: int) -> int
    decreases 40 - k,
{
    if k >= 40 {
        acc
    } else {
        let un = fx::fx_tdiv(fx::fx_mul(u, x2), k as int + 1);
        let t = fx::fx_tdiv(un, 2 * k as int + 3);
        let a = if k % 2 == 0 {
            fx::fx_sub(acc, t)
        } else {
            fx::fx_add(acc, t)
        };
        erf_taylor(x2, k + 1, un, a)
    }
}

/// Backward evaluation of the continued fraction for `erfc` above 2.
pub open spec fn erfc_cf(x: int, k: nat, v: int) -> int
    decreases k,
{
    if k == 0 {
        v
    } else {
        erfc_cf(x, (k - 1) as nat, fx::fx_add(x, fx::fx_div(k as int * (FX_SCALE as int / 2), v)))
    }
}

/// Complementary error function: Taylor series below 2, a continued
/// fraction scaled by `exp(-x^2)` from 2 to 6, zero beyond 6, and the
/// reflection `erfc(-x) = 2 - erfc(x)` for negative arguments.
pub open spec fn fx_erfc(x: int) -> int
    decreases (if x < 0 { 1int } else { 0int }),
{
    if x < 0 {
        fx::fx_sub(2 * FX_SCALE, fx_erfc(-x))
    } else if x >= 6 * FX_SCALE {
        0
    } else if x < 2 * FX_SCALE {
        let acc = erf_taylor(fx::fx_mul(x, x), 0, x, x);
        fx::fx_sub(FX_SCALE as int, fx::fx_mul(FX_TWO_OVER_SQRT_PI as int, acc))
    } else {
        let v = erfc_cf(x, 40, x);
        fx::fx_div(fx_exp_neg(fx::fx_mul(x, x)), fx::fx_mul(FX_SQRT_PI as int, v))
    }
}

fn erfc_nonneg(x: i128) -> (r: i128)
    requires
        fx::fx_ok(x),
        x >= 0,
    ensures
        r == fx_erfc(x as int),
        fx::fx_ok(r),
{
    if x >= 6 * FX_SCALE {
        0
    } else if x < 2 * FX_SCALE {
        let x2: i128 = fx::mul(x, x);
        let mut u: i128 = x;
        let mut acc: i128 = x;
        let mut k: i128 = 0;
        let ghost spec_a: int = erf_taylor(x2 as int, 0, x as int, x as int);
        while k < 40
            invariant
                0 <= k <= 40,
                fx::fx_ok(u),
                fx::fx_ok(acc),
                fx::fx_ok(x2),
                erf_taylor(x2 as int, k as nat, u as int, acc as int) == spec_a,
            decreases 40 - k,
        {
            let un: i128 = divi(fx::mul(u, x2), k + 1);
            let t: i128 = divi(un, 2 * k + 3);
            acc = if k % 2 == 0 {
                fx::sub(acc, t)
            } else {
                fx::add(acc, t)
            };
            u = un;
            k = k + 1;
        }
        fx::sub(FX_SCALE, fx::mul(FX_TWO_OVER_SQRT_PI, acc))
    } else {
        let mut v: i128 = x;
        let mut k: i128 = 40;
        let ghost spec_v: int = erfc_cf(x as int, 40, x as int);
        while k > 0
            invariant
                0 <= k <= 40,
                fx::fx_ok(v),
                fx::fx_ok(x),
                erfc_cf(x as int, k as nat, v as int) == spec_v,
            decreases k,
        {
            let half_k: i128 = k * (FX_SCALE / 2);
            v = fx::add(x, fx::div(half_k, v));
            k = k - 1;
        }
        fx::div(exp_neg(fx::mul(x, x)), fx::mul(FX_SQRT_PI, v))
    }
}

pub fn erfc(x: i128) -> (r: i128)
    requires
        fx::fx_ok(x),
    ensures
        r == fx_erfc(x as int),
        fx::fx_ok(r),
{
    if x < 0 {
        let p: i128 = erfc_nonneg(-x);
        fx::sub(2 * FX_SCALE, p)
    } else {
        erfc_nonneg(x)
    }
}

} // verus!
