//! User-provided output templates: a template string holds literal text
//! with mathematical expressions in braces; the brace structure is
//! parsed and checked here, and each expression is validated by the
//! expression engine behind a trusted boundary.

use vstd::prelude::*;
use vstd::string::StringSliceAdditionalSpecFns;

verus! {

/// The opening brace byte.
pub const LBRACE: u8 = 123;

/// The closing brace byte.
pub const RBRACE: u8 = 125;

/// The opening bracket byte.
pub const LBRACKET: u8 = 91;

/// The closing bracket byte.
pub const RBRACKET: u8 = 93;

/// Declares caldyn's `Expr`, a parsed mathematical expression, so that
/// parsed segments can hold one; it stays opaque here and is evaluated
/// only outside the verified core.
#[verifier::external_type_specification]
#[verifier::external_body]
pub struct ExExpr(caldyn::Expr);

/// Declares caldyn's `Error`, the expression engine's parse error,
/// carried through in this module's own error type.
#[verifier::external_type_specification]
#[verifier::external_body]
pub struct ExCaldynError(caldyn::Error);

/// Whether the expression engine accepts this byte string: a function
/// of the bytes alone.
pub uninterp spec fn expr_parses(bs: Seq<u8>) -> bool;

/// Relies on caldyn's `Expr::parse`: a pure parser whose outcome
/// depends on the expression text alone. The parser panics when one of
/// its built-in function names stands as a token without an opening
/// parenthesis right behind it (both of its operator-stack drains reject
/// such a token with a panic), so the precondition admits only
/// expressions that [`expr_safe`] has screened.
#[verifier::external_body]
fn parse_expr(s: &str) -> (r: Result<caldyn::Expr, caldyn::Error>)
    requires
        expr_safe(s.spec_bytes()),
    ensures
        r is Ok <==> expr_parses(s.spec_bytes()),
{
    caldyn::Expr::parse(s)
}

/// A byte that can stand inside a value token of the expression engine:
/// sign, point, underscore, brackets, digits and ASCII letters.
pub open spec fn expr_value_part(b: u8) -> bool {
    b == 43 || b == 45 || b == 46 || b == 95 || b == 91 || b == 93 || (48 <= b && b <= 57) || (65
        <= b && b <= 90) || (97 <= b && b <= 122)
}

/// The pattern occurs at position `i` of the byte string.
pub open spec fn matches_at(bs: Seq<u8>, i: int, pat: Seq<u8>) -> bool {
    &&& 0 <= i
    &&& i + pat.len() <= bs.len()
    &&& forall|j: int| 0 <= j < pat.len() ==> bs[i + j] == pat[j]
}

/// The pattern occurs at position `i` as a complete value token: the
/// bytes just before and after it cannot extend the token.
pub open spec fn token_at(bs: Seq<u8>, i: int, pat: Seq<u8>) -> bool {
    &&& matches_at(bs, i, pat)
    &&& (i == 0 || !expr_value_part(bs[i - 1]))
    &&& (i + pat.len() == bs.len() || !expr_value_part(bs[i + pat.len()]))
}

/// The built-in function names of the expression engine, as its source
/// registers them.
pub open spec fn fn_names() -> Seq<Seq<u8>> {
    seq![
        seq![115u8, 113u8, 114u8, 116u8],
        seq![99u8, 98u8, 114u8, 116u8],
        seq![115u8, 105u8, 110u8],
        seq![99u8, 111u8, 115u8],
        seq![116u8, 97u8, 110u8],
        seq![97u8, 115u8, 105u8, 110u8],
        seq![97u8, 99u8, 111u8, 115u8],
        seq![97u8, 116u8, 97u8, 110u8],
        seq![115u8, 105u8, 110u8, 104u8],
        seq![99u8, 111u8, 115u8, 104u8],
        seq![116u8, 97u8, 110u8, 104u8],
        seq![97u8, 115u8, 105u8, 110u8, 104u8],
        seq![97u8, 99u8, 111u8, 115u8, 104u8],
        seq![97u8, 116u8, 97u8, 110u8, 104u8],
        seq![102u8, 108u8, 111u8, 111u8, 114u8],
        seq![99u8, 101u8, 105u8, 108u8],
        seq![97u8, 98u8, 115u8],
        seq![101u8, 120u8, 112u8],
        seq![108u8, 110u8],
        seq![108u8, 111u8, 103u8, 50u8],
        seq![108u8, 111u8, 103u8, 49u8, 48u8],
    ]
}

/// Position `i` gives the expression engine no cause to panic: any
/// built-in function name standing there as a complete token is
/// directly followed by an opening parenthesis. Requiring the
/// parenthesis with no blank in between is slightly stricter than the
/// engine itself, which is the safe side.
pub open spec fn safe_at(bs: Seq<u8>, i: int) -> bool {
    forall|k: int|
        0 <= k < fn_names().len() && token_at(bs, i, #[trigger] fn_names()[k]) ==> i
            + fn_names()[k].len() < bs.len() && bs[i + fn_names()[k].len()] == 40
}

/// No position of the expression gives the engine cause to panic.
pub open spec fn expr_safe(bs: Seq<u8>) -> bool {
    forall|i: int| 0 <= i < bs.len() ==> #[trigger] safe_at(bs, i)
}

/// Does the pattern occur at position `i`, executed.
fn match_at<const N: usize>(bytes: &[u8], i: usize, pat: &[u8; N]) -> (b: bool)
    requires
        i <= bytes@.len(),
    ensures
        b == matches_at(bytes@, i as int, pat@),
{
    let n = bytes.len();
    if N > n - i {
        return false;
    }
    let mut j: usize = 0;
    while j < N
        invariant
            0 <= j <= N,
            i + N <= n,
            n == bytes@.len(),
            forall|t: int| 0 <= t < j ==> bytes@[i + t] == pat@[t],
        decreases N - j,
    {
        if bytes[i + j] != pat[j] {
            return false;
        }
        j = j + 1;
    }
    true
}

/// Is the byte a value-token byte, executed.
fn is_value_part(b: u8) -> (r: bool)
    ensures
        r == expr_value_part(b),
{
    b == 43 || b == 45 || b == 46 || b == 95 || b == 91 || b == 93 || (48 <= b && b <= 57) || (65
        <= b && b <= 90) || (97 <= b && b <= 122)
}

/// Does a complete function-name token at `i` lack its parenthesis,
/// for one pattern, executed.
fn unsafe_name_at<const N: usize>(bytes: &[u8], i: usize, pat: &[u8; N]) -> (b: bool)
    requires
        i < bytes@.len(),
    ensures
        b == (token_at(bytes@, i as int, pat@) && !(i + N < bytes@.len() && bytes@[i as int
            + N as int] == 40)),
{
    if !match_at(bytes, i, pat) {
        return false;
    }
    if i > 0 && is_value_part(bytes[i - 1]) {
        return false;
    }
    let n = bytes.len();
    if i + N < n && is_value_part(bytes[i + N]) {
        return false;
    }
    !(i + N < n && bytes[i + N] == 40)
}

/// Screen an expression before it is handed to the engine: true when no
/// built-in function name stands as a token without its parenthesis.
pub fn expr_safe_check(s: &str) -> (b: bool)
    ensures
        b == expr_safe(s.spec_bytes()),
{
    let bytes = s.as_bytes();
    let n = bytes.len();
    let ghost bs = s.spec_bytes();
    let mut i: usize = 0;
    while i < n
        invariant
            0 <= i <= n,
            n == bs.len(),
            bs == s.spec_bytes(),
            bytes@ == bs,
            forall|t: int| 0 <= t < i ==> #[trigger] safe_at(bs, t),
        decreases n - i,
    {
        // one array binding per built-in name of the engine, in its
        // table's order
        let p0: [u8; 4] = [115u8, 113u8, 114u8, 116u8];
        let p1: [u8; 4] = [99u8, 98u8, 114u8, 116u8];
        let p2: [u8; 3] = [115u8, 105u8, 110u8];
        let p3: [u8; 3] = [99u8, 111u8, 115u8];
        let p4: [u8; 3] = [116u8, 97u8, 110u8];
        let p5: [u8; 4] = [97u8, 115u8, 105u8, 110u8];
        let p6: [u8; 4] = [97u8, 99u8, 111u8, 115u8];
        let p7: [u8; 4] = [97u8, 116u8, 97u8, 110u8];
        let p8: [u8; 4] = [115u8, 105u8, 110u8, 104u8];
        let p9: [u8; 4] = [99u8, 111u8, 115u8, 104u8];
        let p10: [u8; 4] = [116u8, 97u8, 110u8, 104u8];
        let p11: [u8; 5] = [97u8, 115u8, 105u8, 110u8, 104u8];
        let p12: [u8; 5] = [97u8, 99u8, 111u8, 115u8, 104u8];
        let p13: [u8; 5] = [97u8, 116u8, 97u8, 110u8, 104u8];
        let p14: [u8; 5] = [102u8, 108u8, 111u8, 111u8, 114u8];
        let p15: [u8; 4] = [99u8, 101u8, 105u8, 108u8];
        let p16: [u8; 3] = [97u8, 98u8, 115u8];
        let p17: [u8; 3] = [101u8, 120u8, 112u8];
        let p18: [u8; 2] = [108u8, 110u8];
        let p19: [u8; 4] = [108u8, 111u8, 103u8, 50u8];
        let p20: [u8; 5] = [108u8, 111u8, 103u8, 49u8, 48u8];
        if unsafe_name_at(bytes, i, &p0) {
            proof {
                assert(fn_names()[0] =~= p0@);
                assert(!safe_at(bs, i as int));
            }
            return false;
        }
        if unsafe_name_at(bytes, i, &p1) {
            proof {
                assert(fn_names()[1] =~= p1@);
                assert(!safe_at(bs, i as int));
            }
            return false;
        }
        if unsafe_name_at(bytes, i, &p2) {
            proof {
                assert(fn_names()[2] =~= p2@);
                assert(!safe_at(bs, i as int));
            }
            return false;
        }
        if unsafe_name_at(bytes, i, &p3) {
            proof {
                assert(fn_names()[3] =~= p3@);
                assert(!safe_at(bs, i as int));
            }
            return false;
        }
        if unsafe_name_at(bytes, i, &p4) {
            proof {
                assert(fn_names()[4] =~= p4@);
                assert(!safe_at(bs, i as int));
            }
            return false;
        }
        if unsafe_name_at(bytes, i, &p5) {
            proof {
                assert(fn_names()[5] =~= p5@);
                assert(!safe_at(bs, i as int));
            }
            return false;
        }
        if unsafe_name_at(bytes, i, &p6) {
            proof {
                assert(fn_names()[6] =~= p6@);
                assert(!safe_at(bs, i as int));
            }
            return false;
        }
        if unsafe_name_at(bytes, i, &p7) {
            proof {
                assert(fn_names()[7] =~= p7@);
                assert(!safe_at(bs, i as int));
            }
            return false;
        }
        if unsafe_name_at(bytes, i, &p8) {
            proof {
                assert(fn_names()[8] =~= p8@);
                assert(!safe_at(bs, i as int));
            }
            return false;
        }
        if unsafe_name_at(bytes, i, &p9) {
            proof {
                assert(fn_names()[9] =~= p9@);
                assert(!safe_at(bs, i as int));
            }
            return false;
        }
        if unsafe_name_at(bytes, i, &p10) {
            proof {
                assert(fn_names()[10] =~= p10@);
                assert(!safe_at(bs, i as int));
            }
            return false;
        }
        if unsafe_name_at(bytes, i, &p11) {
            proof {
                assert(fn_names()[11] =~= p11@);
                assert(!safe_at(bs, i as int));
            }
            return false;
        }
        if unsafe_name_at(bytes, i, &p12) {
            proof {
                assert(fn_names()[12] =~= p12@);
                assert(!safe_at(bs, i as int));
            }
            return false;
        }
        if unsafe_name_at(bytes, i, &p13) {
            proof {
                assert(fn_names()[13] =~= p13@);
                assert(!safe_at(bs, i as int));
            }
            return false;
        }
        if unsafe_name_at(bytes, i, &p14) {
            proof {
                assert(fn_names()[14] =~= p14@);
                assert(!safe_at(bs, i as int));
            }
            return false;
        }
        if unsafe_name_at(bytes, i, &p15) {
            proof {
                assert(fn_names()[15] =~= p15@);
                assert(!safe_at(bs, i as int));
            }
            return false;
        }
        if unsafe_name_at(bytes, i, &p16) {
            proof {
                assert(fn_names()[16] =~= p16@);
                assert(!safe_at(bs, i as int));
            }
            return false;
        }
        if unsafe_name_at(bytes, i, &p17) {
            proof {
                assert(fn_names()[17] =~= p17@);
                assert(!safe_at(bs, i as int));
            }
            return false;
        }
        if unsafe_name_at(bytes, i, &p18) {
            proof {
                assert(fn_names()[18] =~= p18@);
                assert(!safe_at(bs, i as int));
            }
            return false;
        }
        if unsafe_name_at(bytes, i, &p19) {
            proof {
                assert(fn_names()[19] =~= p19@);
                assert(!safe_at(bs, i as int));
            }
            return false;
        }
        if unsafe_name_at(bytes, i, &p20) {
            proof {
                assert(fn_names()[20] =~= p20@);
                assert(!safe_at(bs, i as int));
            }
            return false;
        }
        proof {
            assert forall|k: int|
                0 <= k < fn_names().len() && token_at(bs, i as int, #[trigger] fn_names()[k])
                    implies i + fn_names()[k].len() < bs.len() && bs[i as int
                + fn_names()[k].len()] == 40 by {
                if k == 0 {
                    assert(fn_names()[0] =~= p0@);
                } else if k == 1 {
                    assert(fn_names()[1] =~= p1@);
                } else if k == 2 {
                    assert(fn_names()[2] =~= p2@);
                } else if k == 3 {
                    assert(fn_names()[3] =~= p3@);
                } else if k == 4 {
                    assert(fn_names()[4] =~= p4@);
                } else if k == 5 {
                    assert(fn_names()[5] =~= p5@);
                } else if k == 6 {
                    assert(fn_names()[6] =~= p6@);
                } else if k == 7 {
                    assert(fn_names()[7] =~= p7@);
                } else if k == 8 {
                    assert(fn_names()[8] =~= p8@);
                } else if k == 9 {
                    assert(fn_names()[9] =~= p9@);
                } else if k == 10 {
                    assert(fn_names()[10] =~= p10@);
                } else if k == 11 {
                    assert(fn_names()[11] =~= p11@);
                } else if k == 12 {
                    assert(fn_names()[12] =~= p12@);
                } else if k == 13 {
                    assert(fn_names()[13] =~= p13@);
                } else if k == 14 {
                    assert(fn_names()[14] =~= p14@);
                } else if k == 15 {
                    assert(fn_names()[15] =~= p15@);
                } else if k == 16 {
                    assert(fn_names()[16] =~= p16@);
                } else if k == 17 {
                    assert(fn_names()[17] =~= p17@);
                } else if k == 18 {
                    assert(fn_names()[18] =~= p18@);
                } else if k == 19 {
                    assert(fn_names()[19] =~= p19@);
                } else if k == 20 {
                    assert(fn_names()[20] =~= p20@);
                }
            }
        }
        i = i + 1;
    }
    true
}

/// Possible causes of error when using a custom output template.
#[derive(Debug)]
pub enum CustomOutputError {
    /// Error in a mathematical expression.
    Expr(caldyn::Error),
    /// Any other error, described in words.
    Custom(String),
}

/// Number of occurrences of byte `b` in `bs[0, hi)`.
pub open spec fn count_byte(bs: Seq<u8>, b: u8, hi: int) -> int
    decreases hi,
{
    if hi <= 0 {
        0
    } else {
        count_byte(bs, b, hi - 1) + (if bs[hi - 1] == b {
            1int
        } else {
            0int
        })
    }
}

/// Position of the first occurrence of byte `b` at or after `i`, or -1.
pub open spec fn find_byte(bs: Seq<u8>, b: u8, i: int) -> int
    decreases bs.len() - i,
{
    if i < 0 || i >= bs.len() {
        -1
    } else if bs[i] == b {
        i
    } else {
        find_byte(bs, b, i + 1)
    }
}

/// All bytes of `bs[lo, hi)` are decimal digits.
pub open spec fn all_digits(bs: Seq<u8>, lo: int, hi: int) -> bool {
    forall|k: int| lo <= k < hi ==> 48 <= #[trigger] bs[k] <= 57
}

/// Value of the decimal digits `bs[lo, hi)`.
pub open spec fn digits_val(bs: Seq<u8>, lo: int, hi: int) -> int
    decreases hi - lo,
{
    if hi <= lo {
        0
    } else {
        digits_val(bs, lo, hi - 1) * 10 + (bs[hi - 1] - 48)
    }
}

/// The value of a digit run is non-negative.
proof fn lemma_digits_val_nonneg(bs: Seq<u8>, lo: int, hi: int)
    requires
        all_digits(bs, lo, hi),
    ensures
        digits_val(bs, lo, hi) >= 0,
    decreases hi - lo,
{
    if hi > lo {
        lemma_digits_val_nonneg(bs, lo, hi - 1);
        assert(digits_val(bs, lo, hi - 1) * 10 + (bs[hi - 1] - 48) >= 0) by (nonlinear_arith)
            requires
                digits_val(bs, lo, hi - 1) >= 0 && bs[hi - 1] >= 48,
        ;
    }
}

/// A digit value only grows as digits are appended.
pub proof fn lemma_digits_monotone(bs: Seq<u8>, lo: int, k: int, hi: int)
    requires
        lo <= k <= hi,
        all_digits(bs, lo, hi),
    ensures
        digits_val(bs, lo, k) <= digits_val(bs, lo, hi),
    decreases hi - k,
{
    if k < hi {
        lemma_digits_monotone(bs, lo, k, hi - 1);
        lemma_digits_val_nonneg(bs, lo, hi - 1);
        assert(digits_val(bs, lo, hi - 1) * 10 + (bs[hi - 1] - 48) >= digits_val(bs, lo, hi - 1))
            by (nonlinear_arith)
            requires
                digits_val(bs, lo, hi - 1) >= 0 && bs[hi - 1] >= 48,
        ;
    }
}

/// The shape `name[index]` is recognized: exactly one bracket of each
/// kind, in order, with a well-formed decimal index between them that
/// fits the machine, and the name cut at a character boundary.
pub open spec fn indexed_name(bs: Seq<u8>, lb: int, rb: int) -> bool {
    &&& count_byte(bs, LBRACKET, bs.len() as int) == 1
    &&& count_byte(bs, RBRACKET, bs.len() as int) == 1
    &&& lb == find_byte(bs, LBRACKET, 0)
    &&& rb == find_byte(bs, RBRACKET, 0)
    &&& 0 <= lb < rb
    &&& lb + 1 < rb
    &&& all_digits(bs, lb + 1, rb)
    &&& digits_val(bs, lb + 1, rb) <= usize::MAX
    &&& vstd::utf8::is_char_boundary(bs, lb)
}

/// Get the name and index from a string looking like `name[index]`.
/// Anything else is passed through whole, with index zero.
pub fn parse_index(input: &str) -> (r: (&str, usize))
    ensures
        ({
            let bs = input.spec_bytes();
            let lb = find_byte(bs, LBRACKET, 0);
            let rb = find_byte(bs, RBRACKET, 0);
            if indexed_name(bs, lb, rb) {
                r.0.spec_bytes() == bs.subrange(0, lb) && r.1 == digits_val(bs, lb + 1, rb)
            } else {
                r.0.spec_bytes() == bs && r.1 == 0
            }
        }),
{
    let bytes = input.as_bytes();
    let n = bytes.len();
    let ghost bs = input.spec_bytes();
    let mut nlb: usize = 0;
    let mut nrb: usize = 0;
    let mut lb: usize = 0;
    let mut rb: usize = 0;
    let mut i: usize = 0;
    while i < n
        invariant
            0 <= i <= n,
            n == bs.len(),
            bs == input.spec_bytes(),
            bytes@ == bs,
            nlb == count_byte(bs, LBRACKET, i as int),
            nrb == count_byte(bs, RBRACKET, i as int),
            nlb <= i && nrb <= i,
            nlb > 0 ==> lb as int == find_byte(bs, LBRACKET, 0) && lb < i,
            nrb > 0 ==> rb as int == find_byte(bs, RBRACKET, 0) && rb < i,
            nlb == 0 ==> find_byte(bs, LBRACKET, i as int) == find_byte(bs, LBRACKET, 0),
            nrb == 0 ==> find_byte(bs, RBRACKET, i as int) == find_byte(bs, RBRACKET, 0),
        decreases n - i,
    {
        let b = bytes[i];
        if b == LBRACKET {
            if nlb == 0 {
                lb = i;
            }
            nlb = nlb + 1;
        }
        if b == RBRACKET {
            if nrb == 0 {
                rb = i;
            }
            nrb = nrb + 1;
        }
        i = i + 1;
        proof {
            if nlb > 0 && lb as int == i - 1 && bs[i - 1] == LBRACKET {
                assert(find_byte(bs, LBRACKET, i - 1) == i - 1);
            }
        }
    }
    proof {
        if nlb == 0 {
            assert(find_byte(bs, LBRACKET, n as int) == -1);
        }
        if nrb == 0 {
            assert(find_byte(bs, RBRACKET, n as int) == -1);
        }
    }
    if nlb != 1 || nrb != 1 {
        return (input, 0);
    }
    if lb >= rb || lb + 1 >= rb {
        return (input, 0);
    }
    // parse the digits between the brackets
    let mut v: usize = 0;
    let mut k: usize = lb + 1;
    while k < rb
        invariant
            lb + 1 <= k <= rb,
            rb < n,
            n == bs.len(),
            bs == input.spec_bytes(),
            bytes@ == bs,
            lb as int == find_byte(bs, LBRACKET, 0),
            rb as int == find_byte(bs, RBRACKET, 0),
            lb < rb,
            all_digits(bs, lb as int + 1, k as int),
            v == digits_val(bs, lb as int + 1, k as int),
        decreases rb - k,
    {
        let b = bytes[k];
        if b < 48 || b > 57 {
            proof {
                assert(!all_digits(bs, lb as int + 1, rb as int));
            }
            return (input, 0);
        }
        let d = (b - 48) as usize;
        let w = match v.checked_mul(10) {
            Option::Some(w) => w,
            Option::None => {
                proof {
                    if all_digits(bs, lb as int + 1, rb as int) {
                        lemma_digits_monotone(bs, lb as int + 1, k as int + 1, rb as int);
                        assert(digits_val(bs, lb as int + 1, k as int + 1) == digits_val(
                            bs,
                            lb as int + 1,
                            k as int,
                        ) * 10 + (bs[k as int] - 48));
                        assert(digits_val(bs, lb as int + 1, rb as int) >= v * 10 + (bs[k as int]
                            - 48) >= v * 10 > usize::MAX);
                        assert(!indexed_name(bs, lb as int, rb as int));
                    } else {
                        assert(!indexed_name(bs, lb as int, rb as int));
                    }
                }
                return (input, 0);
            },
        };
        let w2 = match w.checked_add(d) {
            Option::Some(w2) => w2,
            Option::None => {
                proof {
                    if all_digits(bs, lb as int + 1, rb as int) {
                        lemma_digits_monotone(bs, lb as int + 1, k as int + 1, rb as int);
                        assert(digits_val(bs, lb as int + 1, k as int + 1) == digits_val(
                            bs,
                            lb as int + 1,
                            k as int,
                        ) * 10 + (bs[k as int] - 48));
                        assert(digits_val(bs, lb as int + 1, rb as int) >= v * 10 + (bs[k as int]
                            - 48) > usize::MAX);
                        assert(!indexed_name(bs, lb as int, rb as int));
                    } else {
                        assert(!indexed_name(bs, lb as int, rb as int));
                    }
                }
                return (input, 0);
            },
        };
        v = w2;
        k = k + 1;
    }
    if input.is_char_boundary(lb) {
        let parts = input.split_at(lb);
        proof {
            assert(parts.0.spec_bytes() =~= bs.subrange(0, lb as int));
        }
        (parts.0, v)
    } else {
        (input, 0)
    }
}

/// One parsed segment of a template: the literal text before an
/// expression, and the expression itself, all as byte ranges into the
/// template.
pub struct FormatSegment {
    /// Start of the literal text run.
    pub text_start: usize,
    /// End of the literal text run (exclusive).
    pub text_end: usize,
    /// Start of the expression text.
    pub expr_start: usize,
    /// End of the expression text (exclusive).
    pub expr_end: usize,
    /// The parsed expression.
    pub expr: caldyn::Expr,
}

/// A parsed and validated output template: alternating literal text and
/// brace-enclosed expressions, with any remaining tail after the last
/// expression.
pub struct FormatArgs {
    /// The template text.
    pub template: String,
    /// The parsed segments, in template order.
    pub args: Vec<FormatSegment>,
    /// Start of the trailing literal text.
    pub tail_start: usize,
}

/// The template scanner's verdict from position `i` in state
/// `in_expr`/`start`: 0 accepts, 1 rejects on a brace, 2 rejects on an
/// expression, 3 rejects on an unclosed trailing brace, 4 rejects an
/// expression the engine could not be handed safely.
pub open spec fn fmt_scan(bs: Seq<u8>, i: int, in_expr: bool, start: int) -> int
    decreases bs.len() - i,
{
    if i < 0 || i >= bs.len() {
        if in_expr {
            3
        } else {
            0
        }
    } else if bs[i] == LBRACE {
        if in_expr {
            1
        } else {
            fmt_scan(bs, i + 1, true, i + 1)
        }
    } else if bs[i] == RBRACE {
        if !in_expr {
            1
        } else if !expr_safe(bs.subrange(start, i)) {
            4
        } else if !expr_parses(bs.subrange(start, i)) {
            2
        } else {
            fmt_scan(bs, i + 1, false, i + 1)
        }
    } else {
        fmt_scan(bs, i + 1, in_expr, start)
    }
}

impl FormatArgs {
    /// Parse a template: braces must nest properly — no `{` inside an
    /// expression, no stray `}`, no unclosed expression — and every
    /// brace-enclosed expression must be accepted by the expression
    /// engine. The template must be plain ASCII, as the expression
    /// engine works on ASCII data.
    pub fn new(format: &str) -> (r: Result<FormatArgs, CustomOutputError>)
        ensures
            vstd::string::is_ascii(format) ==> (r is Ok <==> fmt_scan(
                format.spec_bytes(),
                0,
                false,
                0,
            ) == 0),
            !vstd::string::is_ascii(format) ==> r is Err,
            r matches Ok(f) ==> f.template@ == format@,
    {
        if !format.is_ascii() {
            return Err(
                CustomOutputError::Custom("the template must be ASCII text".to_string()),
            );
        }
        proof {
            vstd::string::is_ascii_spec_bytes(format);
            vstd::utf8::is_ascii_chars_nat_bound(format@);
        }
        let bytes = format.as_bytes();
        let n = bytes.len();
        let ghost bs = format.spec_bytes();
        let mut args: Vec<FormatSegment> = Vec::new();
        let mut in_expr: bool = false;
        let mut seg_start: usize = 0;
        let mut text_start: usize = 0;
        let mut i: usize = 0;
        while i < n
            invariant
                0 <= i <= n,
                n == bs.len(),
                bs == format.spec_bytes(),
                bytes@ == bs,
                ascii_bytes(bs),
                in_expr ==> seg_start <= i && seg_start >= 1,
                !in_expr ==> text_start <= i,
                in_expr ==> text_start <= seg_start,
                fmt_scan(bs, i as int, in_expr, seg_start as int) == fmt_scan(bs, 0, false, 0),
            decreases n - i,
        {
            let b = bytes[i];
            if b == LBRACE {
                if in_expr {
                    return Err(
                        CustomOutputError::Custom("found { in an expression".to_string()),
                    );
                }
                in_expr = true;
                seg_start = i + 1;
            } else if b == RBRACE {
                if !in_expr {
                    proof {
                        assert(fmt_scan(bs, i as int, false, seg_start as int) == 1);
                    }
                    return Err(
                        CustomOutputError::Custom("found } outside of an expression".to_string()),
                    );
                }
                let sub = slice_str(format, seg_start, i);
                if !expr_safe_check(sub) {
                    proof {
                        assert(fmt_scan(bs, i as int, true, seg_start as int) == 4);
                    }
                    return Err(
                        CustomOutputError::Custom(
                            "a bare function name cannot be handed to the expression engine".to_string(),
                        ),
                    );
                }
                match parse_expr(sub) {
                    Ok(expr) => {
                        args.push(
                            FormatSegment {
                                text_start,
                                text_end: seg_start - 1,
                                expr_start: seg_start,
                                expr_end: i,
                                expr,
                            },
                        );
                        in_expr = false;
                        seg_start = i + 1;
                        text_start = i + 1;
                    },
                    Err(e) => {
                        proof {
                            assert(sub.spec_bytes() == bs.subrange(seg_start as int, i as int));
                            assert(fmt_scan(bs, i as int, true, seg_start as int) == 2);
                        }
                        return Err(CustomOutputError::Expr(e));
                    },
                }
            }
            i = i + 1;
        }
        if in_expr {
            return Err(CustomOutputError::Custom("mismatched braces".to_string()));
        }
        Ok(FormatArgs { template: format.to_string(), args, tail_start: text_start })
    }
}

/// Every byte is plain ASCII.
pub open spec fn ascii_bytes(bs: Seq<u8>) -> bool {
    forall|k: int| 0 <= k < bs.len() ==> #[trigger] bs[k] < 128
}

/// An ASCII byte never has the form of a continuation byte, so in valid
/// UTF-8 text it always falls on a character boundary.
proof fn lemma_ascii_boundary(bs: Seq<u8>, k: int)
    requires
        vstd::utf8::valid_utf8(bs),
        0 <= k <= bs.len(),
        ascii_bytes(bs),
    ensures
        vstd::utf8::is_char_boundary(bs, k),
{
    if k == bs.len() {
        vstd::utf8::is_char_boundary_start_end_of_seq(bs);
    } else {
        vstd::utf8::is_char_boundary_iff_not_is_continuation_byte(bs, k);
    }
}

/// Cut the byte range `[lo, hi)` out of an ASCII string.
fn slice_str(s: &str, lo: usize, hi: usize) -> (r: &str)
    requires
        lo <= hi <= s.spec_bytes().len(),
        ascii_bytes(s.spec_bytes()),
    ensures
        r.spec_bytes() == s.spec_bytes().subrange(lo as int, hi as int),
{
    proof {
        vstd::utf8::encode_utf8_valid_utf8(s@);
        lemma_ascii_boundary(s.spec_bytes(), lo as int);
    }
    let right = s.split_at(lo).1;
    proof {
        vstd::utf8::encode_utf8_valid_utf8(right@);
        assert(right.spec_bytes() =~= s.spec_bytes().subrange(
            lo as int,
            s.spec_bytes().len() as int,
        ));
        assert(ascii_bytes(right.spec_bytes()));
        lemma_ascii_boundary(right.spec_bytes(), hi - lo);
    }
    let left = right.split_at(hi - lo).0;
    proof {
        assert(left.spec_bytes() =~= s.spec_bytes().subrange(lo as int, hi as int));
    }
    left
}

} // verus!
