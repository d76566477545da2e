//! Ghost-level finite sums, and the small algebra of them that the
//! incremental cache proofs rest on: congruence, linearity, and the
//! splitting of a sum into its touched and untouched parts.

use vstd::prelude::*;

verus! {

/// Sum of `f(k)` over `lo <= k < hi`, in exact integer arithmetic.
pub open spec fn sum1(f: spec_fn(int) -> int, lo: int, hi: int) -> int
    decreases hi - lo,
{
    if hi <= lo {
        0
    } else {
        sum1(f, lo, hi - 1) + f(hi - 1)
    }
}

/// Sum of `f(i, j)` over ordered pairs `lo <= i < j < hi`.
pub open spec fn sum_pairs(f: spec_fn(int, int) -> int, lo: int, hi: int) -> int {
    sum1(|i: int| sum1(|j: int| f(i, j), i + 1, hi), lo, hi)
}

/// A sum of terms bounded in magnitude by `c` is bounded by the count
/// times `c`.
pub proof fn lemma_sum1_abs_bound(f: spec_fn(int) -> int, lo: int, hi: int, c: int)
    requires
        lo <= hi,
        c >= 0,
        forall|k: int| lo <= k < hi ==> -c <= #[trigger] f(k) <= c,
    ensures
        -((hi - lo) * c) <= sum1(f, lo, hi) <= (hi - lo) * c,
    decreases hi - lo,
{
    if hi > lo {
        lemma_sum1_abs_bound(f, lo, hi - 1, c);
        assert((hi - lo) * c == (hi - 1 - lo) * c + c) by (nonlinear_arith);
    }
}

/// A pair sum of terms bounded in magnitude by `c` is bounded by the
/// squared count times `c`.
pub proof fn lemma_sum_pairs_abs_bound(f: spec_fn(int, int) -> int, lo: int, hi: int, c: int)
    requires
        lo <= hi,
        c >= 0,
        forall|i: int, j: int| lo <= i < j < hi ==> -c <= #[trigger] f(i, j) <= c,
    ensures
        -((hi - lo) * ((hi - lo) * c)) <= sum_pairs(f, lo, hi) <= (hi - lo) * ((hi - lo) * c),
{
    let rows = |i: int| sum1(|j: int| f(i, j), i + 1, hi);
    let rc = (hi - lo) * c;
    assert((hi - lo) * c >= 0) by (nonlinear_arith)
        requires
            hi >= lo && c >= 0,
    ;
    assert forall|i: int| lo <= i < hi implies -rc <= #[trigger] rows(i) <= rc by {
        lemma_sum1_abs_bound(|j: int| f(i, j), i + 1, hi, c);
        assert((hi - i - 1) * c <= (hi - lo) * c) by (nonlinear_arith)
            requires
                lo <= i && c >= 0,
        ;
    }
    lemma_sum1_abs_bound(rows, lo, hi, rc);
}

/// Sums of pointwise-equal functions are equal.
pub proof fn lemma_sum1_congruence(f: spec_fn(int) -> int, g: spec_fn(int) -> int, lo: int, hi: int)
    requires
        forall|k: int| lo <= k < hi ==> #[trigger] f(k) == g(k),
    ensures
        sum1(f, lo, hi) == sum1(g, lo, hi),
    decreases hi - lo,
{
    if hi > lo {
        lemma_sum1_congruence(f, g, lo, hi - 1);
    }
}

/// A sum of pointwise sums splits into two sums.
pub proof fn lemma_sum1_linear(
    f: spec_fn(int) -> int,
    g: spec_fn(int) -> int,
    h: spec_fn(int) -> int,
    lo: int,
    hi: int,
)
    requires
        forall|k: int| lo <= k < hi ==> #[trigger] h(k) == f(k) + g(k),
    ensures
        sum1(h, lo, hi) == sum1(f, lo, hi) + sum1(g, lo, hi),
    decreases hi - lo,
{
    if hi > lo {
        lemma_sum1_linear(f, g, h, lo, hi - 1);
    }
}

/// Pair sums of pointwise-equal functions are equal.
pub proof fn lemma_sum_pairs_congruence(
    f: spec_fn(int, int) -> int,
    g: spec_fn(int, int) -> int,
    lo: int,
    hi: int,
)
    requires
        forall|i: int, j: int| lo <= i < j < hi ==> #[trigger] f(i, j) == g(i, j),
    ensures
        sum_pairs(f, lo, hi) == sum_pairs(g, lo, hi),
{
    let rf = |i: int| sum1(|j: int| f(i, j), i + 1, hi);
    let rg = |i: int| sum1(|j: int| g(i, j), i + 1, hi);
    assert forall|i: int| lo <= i < hi implies #[trigger] rf(i) == rg(i) by {
        lemma_sum1_congruence(|j: int| f(i, j), |j: int| g(i, j), i + 1, hi);
    }
    lemma_sum1_congruence(rf, rg, lo, hi);
}

/// A pair sum of pointwise sums splits into two pair sums.
pub proof fn lemma_sum_pairs_linear(
    f: spec_fn(int, int) -> int,
    g: spec_fn(int, int) -> int,
    h: spec_fn(int, int) -> int,
    lo: int,
    hi: int,
)
    requires
        forall|i: int, j: int| lo <= i < j < hi ==> #[trigger] h(i, j) == f(i, j) + g(i, j),
    ensures
        sum_pairs(h, lo, hi) == sum_pairs(f, lo, hi) + sum_pairs(g, lo, hi),
{
    let rf = |i: int| sum1(|j: int| f(i, j), i + 1, hi);
    let rg = |i: int| sum1(|j: int| g(i, j), i + 1, hi);
    let rh = |i: int| sum1(|j: int| h(i, j), i + 1, hi);
    assert forall|i: int| lo <= i < hi implies #[trigger] rh(i) == rf(i) + rg(i) by {
        lemma_sum1_linear(|j: int| f(i, j), |j: int| g(i, j), |j: int| h(i, j), i + 1, hi);
    }
    lemma_sum1_linear(rf, rg, rh, lo, hi);
}

/// The difference of two sums that agree wherever `mask` is false equals
/// the difference of the masked sums: only touched indices contribute.
pub proof fn lemma_sum1_masked_delta(
    f1: spec_fn(int) -> int,
    f2: spec_fn(int) -> int,
    mask: spec_fn(int) -> bool,
    lo: int,
    hi: int,
)
    requires
        forall|k: int| lo <= k < hi && !mask(k) ==> #[trigger] f1(k) == f2(k),
    ensures
        sum1(f2, lo, hi) - sum1(f1, lo, hi) == sum1(
            |k: int|
                if mask(k) {
                    f2(k)
                } else {
                    0
                },
            lo,
            hi,
        ) - sum1(
            |k: int|
                if mask(k) {
                    f1(k)
                } else {
                    0
                },
            lo,
            hi,
        ),
    decreases hi - lo,
{
    if hi > lo {
        lemma_sum1_masked_delta(f1, f2, mask, lo, hi - 1);
    }
}

/// The pair-sum version of the masked-difference law: two pair sums that
/// agree on every pair with both endpoints untouched differ exactly by
/// the difference of their touched-pair sums.
pub proof fn lemma_sum_pairs_masked_delta(
    f1: spec_fn(int, int) -> int,
    f2: spec_fn(int, int) -> int,
    mask: spec_fn(int) -> bool,
    lo: int,
    hi: int,
)
    requires
        forall|i: int, j: int|
            lo <= i < j < hi && !mask(i) && !mask(j) ==> #[trigger] f1(i, j) == f2(i, j),
    ensures
        sum_pairs(f2, lo, hi) - sum_pairs(f1, lo, hi) == sum_pairs(
            |i: int, j: int|
                if mask(i) || mask(j) {
                    f2(i, j)
                } else {
                    0
                },
            lo,
            hi,
        ) - sum_pairs(
            |i: int, j: int|
                if mask(i) || mask(j) {
                    f1(i, j)
                } else {
                    0
                },
            lo,
            hi,
        ),
{
    let m1 = |i: int, j: int|
        if mask(i) || mask(j) {
            f1(i, j)
        } else {
            0
        };
    let m2 = |i: int, j: int|
        if mask(i) || mask(j) {
            f2(i, j)
        } else {
            0
        };
    let u = |i: int, j: int|
        if mask(i) || mask(j) {
            0
        } else {
            f1(i, j)
        };
    lemma_sum_pairs_linear(m1, u, f1, lo, hi);
    lemma_sum_pairs_linear(
        m2,
        u,
        |i: int, j: int| m2(i, j) + u(i, j),
        lo,
        hi,
    );
    lemma_sum_pairs_congruence(f2, |i: int, j: int| m2(i, j) + u(i, j), lo, hi);
}

} // verus!
