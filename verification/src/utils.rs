//! Parsing of plain numeric tokens, as text-based system builders hand
//! them over: unsigned counts and signed decimal numbers brought into
//! the fixed-point representation.

use crate::fx;
use crate::out::custom::{all_digits, count_byte, digits_val, find_byte};
use vstd::prelude::*;
use vstd::string::StringSliceAdditionalSpecFns;

verus! {

/// The decimal-point byte.
pub const DOT: u8 = 46;

/// The minus-sign byte.
pub const MINUS: u8 = 45;

/// Largest accepted integer part of a decimal token: any value up to
/// this fits the representable fixed-point range whatever the fraction.
pub const DEC_INT_MAX: i128 = 4194303;

/// Ten to the `d`-th power.
pub open spec fn pow10(d: int) -> int
    decreases d,
{
    if d <= 0 {
        1
    } else {
        10 * pow10(d - 1)
    }
}

/// The token is a well-formed decimal number: an optional minus sign,
/// at least one integer digit, and an optional point followed by at
/// most eighteen fraction digits, with the integer part small enough
/// that the value is representable.
pub open spec fn dec_ok(bs: Seq<u8>) -> bool {
    let start: int = if bs.len() > 0 && bs[0] == MINUS {
        1
    } else {
        0
    };
    let dot = find_byte(bs, DOT, 0);
    let ip_end: int = if dot == -1 {
        bs.len() as int
    } else {
        dot
    };
    &&& bs.len() > start
    &&& start < ip_end
    &&& all_digits(bs, start, ip_end)
    &&& digits_val(bs, start, ip_end) <= DEC_INT_MAX
    &&& (dot != -1 ==> {
        &&& count_byte(bs, DOT, bs.len() as int) == 1
        &&& all_digits(bs, dot + 1, bs.len() as int)
        &&& bs.len() - dot - 1 <= 18
    })
}

/// The fixed-point value of a well-formed decimal token: the integer
/// part exactly, plus the fraction truncated toward zero at the
/// fixed-point resolution, negated under a minus sign.
pub open spec fn dec_val(bs: Seq<u8>) -> int {
    let neg = bs.len() > 0 && bs[0] == MINUS;
    let start: int = if neg {
        1
    } else {
        0
    };
    let dot = find_byte(bs, DOT, 0);
    let ip_end: int = if dot == -1 {
        bs.len() as int
    } else {
        dot
    };
    let ipv = digits_val(bs, start, ip_end);
    let frac: int = if dot == -1 {
        0
    } else {
        fx::fx_tdiv(
            digits_val(bs, dot + 1, bs.len() as int) * fx::FX_SCALE,
            pow10(bs.len() - dot - 1),
        )
    };
    let mag = ipv * fx::FX_SCALE + frac;
    if neg {
        -mag
    } else {
        mag
    }
}

/// Powers of ten stay positive.
proof fn lemma_pow10_pos(d: int)
    ensures
        pow10(d) >= 1,
    decreases d,
{
    if d > 0 {
        lemma_pow10_pos(d - 1);
    }
}

/// Powers of ten grow with the exponent.
proof fn lemma_pow10_mono(a: int, b: int)
    requires
        0 <= a <= b,
    ensures
        pow10(a) <= pow10(b),
    decreases b,
{
    if a < b {
        lemma_pow10_mono(a, b - 1);
        lemma_pow10_pos(b - 1);
    }
}

/// The largest accepted fraction width, evaluated.
proof fn lemma_pow10_18()
    ensures
        pow10(18) == 1000000000000000000,
{
    reveal_with_fuel(pow10, 20);
}

/// A fraction of fewer than nineteen digits contributes less than one
/// whole unit.
proof fn lemma_frac_small(fpv: int, d: int)
    requires
        0 <= fpv < pow10(d),
        d >= 0,
    ensures
        0 <= fx::fx_tdiv(fpv * fx::FX_SCALE, pow10(d)) < fx::FX_SCALE,
{
    lemma_pow10_pos(d);
    assert(0 <= fpv * fx::FX_SCALE) by (nonlinear_arith)
        requires
            fpv >= 0,
    ;
    assert(fpv * fx::FX_SCALE <= (pow10(d) - 1) * fx::FX_SCALE) by (nonlinear_arith)
        requires
            fpv <= pow10(d) - 1,
    ;
    assert((fpv * fx::FX_SCALE) / pow10(d) < fx::FX_SCALE) by (nonlinear_arith)
        requires
            0 <= fpv * fx::FX_SCALE <= (pow10(d) - 1) * fx::FX_SCALE && pow10(d) >= 1,
    ;
}

/// A digit run of length `d` is below ten to the `d`-th power.
proof fn lemma_digits_below_pow10(bs: Seq<u8>, lo: int, hi: int)
    requires
        lo <= hi,
        all_digits(bs, lo, hi),
    ensures
        0 <= digits_val(bs, lo, hi) < pow10(hi - lo),
    decreases hi - lo,
{
    if hi > lo {
        lemma_digits_below_pow10(bs, lo, hi - 1);
        assert(digits_val(bs, lo, hi - 1) * 10 + (bs[hi - 1] - 48) < 10 * pow10(hi - 1 - lo))
            by (nonlinear_arith)
            requires
                digits_val(bs, lo, hi - 1) <= pow10(hi - 1 - lo) - 1 && bs[hi - 1] <= 57,
        ;
        assert(digits_val(bs, lo, hi - 1) * 10 + (bs[hi - 1] - 48) >= 0) by (nonlinear_arith)
            requires
                digits_val(bs, lo, hi - 1) >= 0 && bs[hi - 1] >= 48,
        ;
    }
}

/// Parse an unsigned count: the token must be all digits, at least one,
/// with a value that fits the machine.
pub fn parse_usize(token: &str) -> (r: Option<usize>)
    ensures
        ({
            let bs = token.spec_bytes();
            if bs.len() > 0 && all_digits(bs, 0, bs.len() as int) && digits_val(
                bs,
                0,
                bs.len() as int,
            ) <= usize::MAX {
                r == Some(digits_val(bs, 0, bs.len() as int) as usize)
            } else {
                r is None
            }
        }),
{
    let bytes = token.as_bytes();
    let n = bytes.len();
    let ghost bs = token.spec_bytes();
    if n == 0 {
        return Option::None;
    }
    let mut v: usize = 0;
    let mut k: usize = 0;
    while k < n
        invariant
            0 <= k <= n,
            n == bs.len(),
            bs == token.spec_bytes(),
            bytes@ == bs,
            all_digits(bs, 0, k as int),
            v == digits_val(bs, 0, k as int),
        decreases n - k,
    {
        let b = bytes[k];
        if b < 48 || b > 57 {
            proof {
                assert(!all_digits(bs, 0, n as int));
            }
            return Option::None;
        }
        let d = (b - 48) as usize;
        let w = match v.checked_mul(10) {
            Option::Some(w) => w,
            Option::None => {
                proof {
                    if all_digits(bs, 0, n as int) {
                        crate::out::custom::lemma_digits_monotone(bs, 0, k as int + 1, n as int);
                    }
                }
                return Option::None;
            },
        };
        let w2 = match w.checked_add(d) {
            Option::Some(w2) => w2,
            Option::None => {
                proof {
                    if all_digits(bs, 0, n as int) {
                        crate::out::custom::lemma_digits_monotone(bs, 0, k as int + 1, n as int);
                    }
                }
                return Option::None;
            },
        };
        v = w2;
        k = k + 1;
    }
    Option::Some(v)
}

/// Parse a signed decimal token into a fixed-point value, truncating
/// the fraction toward zero at the fixed-point resolution.
pub fn parse_fx(token: &str) -> (r: Option<i128>)
    ensures
        ({
            let bs = token.spec_bytes();
            if dec_ok(bs) {
                r matches Some(v) && v as int == dec_val(bs) && fx::fx_ok(v)
            } else {
                r is None
            }
        }),
{
    let bytes = token.as_bytes();
    let n = bytes.len();
    let ghost bs = token.spec_bytes();
    if n == 0 {
        return Option::None;
    }
    let neg = bytes[0] == MINUS;
    let start: usize = if neg {
        1
    } else {
        0
    };
    // locate the decimal point, insisting on at most one
    let mut dot: usize = n;
    let mut ndots: usize = 0;
    let mut i: usize = 0;
    while i < n
        invariant
            0 <= i <= n,
            n == bs.len(),
            bs == token.spec_bytes(),
            bytes@ == bs,
            ndots == count_byte(bs, DOT, i as int),
            ndots <= i,
            ndots > 0 ==> dot as int == find_byte(bs, DOT, 0) && dot < i,
            ndots == 0 ==> dot == n && find_byte(bs, DOT, i as int) == find_byte(bs, DOT, 0),
        decreases n - i,
    {
        if bytes[i] == DOT {
            if ndots == 0 {
                dot = i;
            }
            ndots = ndots + 1;
        }
        i = i + 1;
    }
    proof {
        if ndots == 0 {
            assert(find_byte(bs, DOT, n as int) == -1);
        }
    }
    if ndots > 1 {
        return Option::None;
    }
    let ip_end = dot;
    if start >= ip_end {
        return Option::None;
    }
    // the integer digits
    let mut ipv: i128 = 0;
    let mut k: usize = start;
    while k < ip_end
        invariant
            start <= k <= ip_end,
            ip_end <= n,
            0 < n == bs.len(),
            bs == token.spec_bytes(),
            bytes@ == bs,
            neg == (bs[0] == MINUS),
            start == (if neg {
                1int
            } else {
                0int
            }),
            (dot < n && dot as int == find_byte(bs, DOT, 0)) || (dot == n && find_byte(bs, DOT, 0)
                == -1),
            ip_end == dot,
            all_digits(bs, start as int, k as int),
            0 <= ipv,
            ipv == digits_val(bs, start as int, k as int),
            ipv <= DEC_INT_MAX,
        decreases ip_end - k,
    {
        let b = bytes[k];
        if b < 48 || b > 57 {
            proof {
                assert(!all_digits(bs, start as int, ip_end as int));
                assert(!dec_ok(bs));
            }
            return Option::None;
        }
        let w: i128 = ipv * 10 + ((b - 48) as i128);
        if w > DEC_INT_MAX {
            proof {
                if all_digits(bs, start as int, ip_end as int) {
                    crate::out::custom::lemma_digits_monotone(
                        bs,
                        start as int,
                        k as int + 1,
                        ip_end as int,
                    );
                    assert(digits_val(bs, start as int, k as int + 1) == digits_val(
                        bs,
                        start as int,
                        k as int,
                    ) * 10 + (bs[k as int] - 48));
                    assert(digits_val(bs, start as int, ip_end as int) > DEC_INT_MAX);
                }
                assert(!dec_ok(bs));
            }
            return Option::None;
        }
        ipv = w;
        k = k + 1;
    }
    // the fraction digits
    let mut frac: i128 = 0;
    if dot < n {
        let d = n - dot - 1;
        if d > 18 {
            return Option::None;
        }
        let mut fpv: i128 = 0;
        let mut p10: i128 = 1;
        let mut k2: usize = dot + 1;
        while k2 < n
            invariant
                dot + 1 <= k2 <= n,
                dot < n,
                0 < n == bs.len(),
                bs == token.spec_bytes(),
                bytes@ == bs,
                dot as int == find_byte(bs, DOT, 0),
                n - dot - 1 <= 18,
                all_digits(bs, dot as int + 1, k2 as int),
                0 <= fpv,
                fpv == digits_val(bs, dot as int + 1, k2 as int),
                p10 == pow10(k2 - dot - 1),
                p10 <= 1000000000000000000,
                fpv < p10,
            decreases n - k2,
        {
            let b = bytes[k2];
            if b < 48 || b > 57 {
                proof {
                    assert(!all_digits(bs, dot as int + 1, n as int));
                    assert(!dec_ok(bs));
                }
                return Option::None;
            }
            proof {
                assert(fpv * 10 + (b - 48) < 10 * p10 && fpv * 10 >= 0) by (nonlinear_arith)
                    requires
                        0 <= fpv <= p10 - 1 && 48 <= b <= 57,
                ;
                lemma_pow10_18();
                lemma_pow10_mono(k2 - dot, 18);
            }
            fpv = fpv * 10 + ((b - 48) as i128);
            p10 = p10 * 10;
            k2 = k2 + 1;
        }
        proof {
            assert(fpv * fx::FX_SCALE >= 0 && fpv * fx::FX_SCALE <= 1000000000000000000i128
                * fx::FX_SCALE) by (nonlinear_arith)
                requires
                    0 <= fpv <= 1000000000000000000i128,
            ;
        }
        let num: i128 = fpv * fx::FX_SCALE;
        let q: i128 = num / p10;
        proof {
            assert(q == fx::fx_tdiv(num as int, p10 as int));
            lemma_frac_small(fpv as int, (n - dot - 1) as int);
        }
        frac = q;
    }
    let mag: i128 = ipv * fx::FX_SCALE + frac;
    proof {
        assert(ipv * fx::FX_SCALE <= DEC_INT_MAX * fx::FX_SCALE && ipv * fx::FX_SCALE >= 0)
            by (nonlinear_arith)
            requires
                0 <= ipv <= DEC_INT_MAX,
        ;
    }
    if neg {
        Option::Some(-mag)
    } else {
        Option::Some(mag)
    }
}

} // verus!
