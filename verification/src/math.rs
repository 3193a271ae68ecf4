//! Integer helpers shared by the statistics and scoring code: sums over
//! sequences, rounded and bounded division, and an integer square root.

use vstd::prelude::*;
use vstd::arithmetic::div_mod::lemma_fundamental_div_mod;

verus! {

/// Sum of a sequence of mathematical integers.
pub open spec fn int_sum(s: Seq<int>) -> int
    decreases s.len(),
{
    if s.len() == 0 {
        0
    } else {
        int_sum(s.drop_last()) + s.last()
    }
}

pub proof fn lemma_int_sum_push(s: Seq<int>, x: int)
    ensures
        int_sum(s.push(x)) == int_sum(s) + x,
{
    assert(s.push(x).drop_last() =~= s);
    assert(s.push(x).last() == x);
}

/// Every element in `[lo, hi]` bounds the sum by `len * lo` and `len * hi`.
pub proof fn lemma_int_sum_bounds(s: Seq<int>, lo: int, hi: int)
    requires
        forall|i: int| 0 <= i < s.len() ==> lo <= #[trigger] s[i] <= hi,
    ensures
        s.len() * lo <= int_sum(s) <= s.len() * hi,
    decreases s.len(),
{
    if s.len() == 0 {
    } else {
        let prefix = s.drop_last();
        assert(forall|i: int| 0 <= i < prefix.len() ==> lo <= #[trigger] prefix[i] <= hi);
        lemma_int_sum_bounds(prefix, lo, hi);
        assert(lo <= s.last() <= hi);
        assert(s.len() * lo == prefix.len() * lo + lo) by (nonlinear_arith)
            requires s.len() == prefix.len() + 1;
        assert(s.len() * hi == prefix.len() * hi + hi) by (nonlinear_arith)
            requires s.len() == prefix.len() + 1;
    }
}

/// A sum of non-negative elements is non-negative.
pub proof fn lemma_int_sum_nonneg(s: Seq<int>)
    requires
        forall|i: int| 0 <= i < s.len() ==> 0 <= #[trigger] s[i],
    ensures
        0 <= int_sum(s),
    decreases s.len(),
{
    if s.len() > 0 {
        let prefix = s.drop_last();
        assert(forall|i: int| 0 <= i < prefix.len() ==> 0 <= #[trigger] prefix[i]);
        lemma_int_sum_nonneg(prefix);
    }
}

pub open spec fn abs_int(a: int) -> int {
    if a >= 0 {
        a
    } else {
        -a
    }
}

/// Integer division of `a` by `n`, rounded half away from zero.
pub open spec fn round_div(a: int, n: int) -> int
    recommends
        n >= 1,
{
    let q = abs_int(a) / n;
    let r = abs_int(a) % n;
    let m = if 2 * r >= n {
        q + 1
    } else {
        q
    };
    if a >= 0 {
        m
    } else {
        -m
    }
}

/// If `|a| <= n * bound` then `|round_div(a, n)| <= bound`.
pub proof fn lemma_round_div_bound(a: int, n: int, bound: int)
    requires
        n >= 1,
        0 <= bound,
        abs_int(a) <= n * bound,
    ensures
        abs_int(round_div(a, n)) <= bound,
{
    let v = abs_int(a);
    let q = v / n;
    let r = v % n;
    lemma_fundamental_div_mod(v, n);
    if q >= bound + 1 {
        assert(n * (bound + 1) <= n * q) by (nonlinear_arith)
            requires n >= 1, bound + 1 <= q;
        assert(n * q <= v);
        assert(n * bound + n <= v) by (nonlinear_arith)
            requires n * (bound + 1) <= v;
        assert(false);
    }
    if q == bound {
        if r > 0 {
            assert(v == n * q + r);
            assert(v > n * bound);
            assert(false);
        }
        assert(r == 0);
    }
}

/// Products of larger non-negative factors are larger.
pub proof fn lemma_mul_le(a: int, b: int, c: int, d: int)
    requires
        0 <= a <= c,
        0 <= b <= d,
    ensures
        a * b <= c * d,
{
    assert(a * b <= c * d) by (nonlinear_arith)
        requires 0 <= a <= c, 0 <= b <= d;
}

/// A product of factors that are at least one dominates either factor.
pub proof fn lemma_prod_ge_one(a: int, b: int)
    requires
        1 <= a,
        1 <= b,
    ensures
        a <= a * b,
        b <= a * b,
        1 <= a * b,
{
    assert(a <= a * b && b <= a * b && 1 <= a * b) by (nonlinear_arith)
        requires 1 <= a, 1 <= b;
}

/// If `0 <= a <= n * bound` then `a / n <= bound`.
pub proof fn lemma_floor_div_bound(a: int, n: int, bound: int)
    requires
        n >= 1,
        0 <= bound,
        0 <= a,
        a <= n * bound,
    ensures
        0 <= a / n <= bound,
{
    lemma_fundamental_div_mod(a, n);
    if a / n > bound {
        assert(n * (bound + 1) <= n * (a / n)) by (nonlinear_arith)
            requires n >= 1, bound + 1 <= a / n;
        assert(n * bound + n <= n * (a / n)) by (nonlinear_arith)
            requires n * (bound + 1) <= n * (a / n);
        assert(false);
    }
    if a / n < 0 {
        assert(n * (a / n) <= -n) by (nonlinear_arith)
            requires n >= 1, a / n <= -1;
        assert(false);
    }
}

/// Range version of the rounding bound: if `n * lo <= a <= n * hi`
/// with `lo <= 0 <= hi`, then `lo <= round_div(a, n) <= hi`.
pub proof fn lemma_round_div_range(a: int, n: int, lo: int, hi: int)
    requires
        n >= 1,
        lo <= 0 <= hi,
        n * lo <= a,
        a <= n * hi,
    ensures
        lo <= round_div(a, n) <= hi,
{
    if a >= 0 {
        lemma_round_div_bound(a, n, hi);
        assert(round_div(a, n) >= 0);
    } else {
        assert(abs_int(a) == -a);
        assert(-a <= n * (-lo)) by (nonlinear_arith)
            requires n * lo <= a;
        lemma_round_div_bound(a, n, -lo);
        assert(round_div(a, n) <= 0);
    }
}

/// `r` is the floor of the square root of `v`.
pub open spec fn is_floor_sqrt(v: int, r: int) -> bool {
    r * r <= v < (r + 1) * (r + 1)
}

/// Floor of the square root, for any `u128` value.
pub fn isqrt_u128(v: u128) -> (r: u64)
    ensures
        is_floor_sqrt(v as int, r as int),
{
    if v == 0 {
        return 0;
    }
    let mut lo: u128 = 0;
    let mut hi: u128 = 0x1_0000_0000_0000_0000;
    proof {
        assert((hi as int) * (hi as int) > u128::MAX as int) by (nonlinear_arith)
            requires hi == 0x1_0000_0000_0000_0000u128;
    }
    while lo + 1 < hi
        invariant
            lo < hi,
            hi <= 0x1_0000_0000_0000_0000u128,
            (lo as int) * (lo as int) <= v as int,
            (hi as int) * (hi as int) > v as int,
        decreases hi - lo,
    {
        let mid = lo + (hi - lo) / 2;
        assert(lo < mid < hi);
        assert((mid as int) * (mid as int) <= u128::MAX as int) by (nonlinear_arith)
            requires mid < 0x1_0000_0000_0000_0000u128;
        if mid * mid <= v {
            lo = mid;
        } else {
            hi = mid;
        }
    }
    assert(lo + 1 == hi);
    assert(lo < 0x1_0000_0000_0000_0000u128);
    lo as u64
}

} // verus!
