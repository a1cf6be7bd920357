//! Integer arithmetic underpinning the detectors: sums of squared-sample
//! sequences, bounded-quotient lemmas, and a verified integer square root.

use vstd::arithmetic::div_mod::lemma_div_by_multiple;
use vstd::arithmetic::div_mod::lemma_div_is_ordered;
use vstd::arithmetic::div_mod::lemma_div_pos_is_pos;
use vstd::arithmetic::div_mod::lemma_multiply_divide_lt;
use vstd::arithmetic::mul::lemma_mul_inequality;
use vstd::arithmetic::mul::lemma_mul_strict_inequality;
use vstd::prelude::*;

verus! {

/// Sum of a sequence of squared samples.
pub open spec fn sum_seq(s: Seq<u64>) -> int
    decreases s.len(),
{
    if s.len() == 0 {
        0
    } else {
        s[0] + sum_seq(s.drop_first())
    }
}

pub proof fn lemma_sum_nonneg(s: Seq<u64>)
    ensures
        sum_seq(s) >= 0,
    decreases s.len(),
{
    if s.len() > 0 {
        lemma_sum_nonneg(s.drop_first());
    }
}

pub proof fn lemma_sum_concat(a: Seq<u64>, b: Seq<u64>)
    ensures
        sum_seq(a + b) == sum_seq(a) + sum_seq(b),
    decreases a.len(),
{
    if a.len() == 0 {
        assert(a + b =~= b);
    } else {
        assert((a + b).drop_first() =~= a.drop_first() + b);
        lemma_sum_concat(a.drop_first(), b);
    }
}

pub proof fn lemma_sum_push(s: Seq<u64>, v: u64)
    ensures
        sum_seq(s.push(v)) == sum_seq(s) + v,
{
    assert(s.push(v) =~= s + seq![v]);
    lemma_sum_concat(s, seq![v]);
    assert(seq![v].drop_first() =~= Seq::<u64>::empty());
    assert(sum_seq(Seq::<u64>::empty()) == 0);
    assert(sum_seq(seq![v]) == v + sum_seq(seq![v].drop_first()));
}

pub proof fn lemma_sum_update(s: Seq<u64>, i: int, v: u64)
    requires
        0 <= i < s.len(),
    ensures
        sum_seq(s.update(i, v)) == sum_seq(s) - s[i] + v,
    decreases s.len(),
{
    if i == 0 {
        assert(s.update(0, v).drop_first() =~= s.drop_first());
    } else {
        assert(s.update(i, v).drop_first() =~= s.drop_first().update(i - 1, v));
        lemma_sum_update(s.drop_first(), i - 1, v);
    }
}

/// Every element of a sequence of non-negative values is at most the sum.
pub proof fn lemma_sum_elem_le(s: Seq<u64>, i: int)
    requires
        0 <= i < s.len(),
    ensures
        s[i] <= sum_seq(s),
    decreases s.len(),
{
    if i == 0 {
        lemma_sum_nonneg(s.drop_first());
    } else {
        lemma_sum_elem_le(s.drop_first(), i - 1);
    }
}

/// A sequence with entries bounded by `b` sums to at most `len * b`.
pub proof fn lemma_sum_le(s: Seq<u64>, b: u64)
    requires
        forall|i: int| 0 <= i < s.len() ==> s[i] <= b,
    ensures
        sum_seq(s) <= s.len() * b,
    decreases s.len(),
{
    if s.len() == 0 {
    } else {
        assert(forall|i: int|
            0 <= i < s.drop_first().len() ==> s.drop_first()[i] <= b);
        lemma_sum_le(s.drop_first(), b);
        assert(s.len() * b == (s.len() - 1) * b + b) by (nonlinear_arith);
    }
}

/// Splitting a sequence at `k` splits its sum.
pub proof fn lemma_sum_split(s: Seq<u64>, k: int)
    requires
        0 <= k <= s.len(),
    ensures
        sum_seq(s) == sum_seq(s.subrange(0, k)) + sum_seq(s.subrange(k, s.len() as int)),
{
    assert(s =~= s.subrange(0, k) + s.subrange(k, s.len() as int));
    lemma_sum_concat(s.subrange(0, k), s.subrange(k, s.len() as int));
}

/// For `0 <= b <= c`, scaling `a >= 0` by `b/c` does not increase it.
pub proof fn lemma_mul_div_le(a: int, b: int, c: int)
    requires
        0 <= a,
        0 <= b <= c,
        0 < c,
    ensures
        0 <= (a * b) / c <= a,
{
    lemma_mul_inequality(b, c, a);
    assert(b * a == a * b) by (nonlinear_arith);
    assert(c * a == a * c) by (nonlinear_arith);
    lemma_div_is_ordered(a * b, a * c, c);
    lemma_div_by_multiple(a, c);
    lemma_div_pos_is_pos(a * b, c);
    assert(a * b >= 0) by (nonlinear_arith)
        requires 0 <= a && 0 <= b;
}

/// For `0 <= b < c`, scaling `a > 0` by `b/c` strictly decreases it.
pub proof fn lemma_mul_div_lt(a: int, b: int, c: int)
    requires
        0 < a,
        0 <= b < c,
    ensures
        0 <= (a * b) / c < a,
{
    lemma_mul_div_le(a, b, c);
    lemma_mul_strict_inequality(b, c, a);
    assert(b * a == a * b) by (nonlinear_arith);
    assert(c * a == a * c) by (nonlinear_arith);
    lemma_multiply_divide_lt(a * b, c, a);
}

/// `r` is the floor of the square root of `x`.
pub open spec fn is_sqrt_floor(x: int, r: int) -> bool {
    0 <= r && r * r <= x < (r + 1) * (r + 1)
}

/// The floor of the square root of a non-negative integer.
pub open spec fn sqrt_floor(x: int) -> int {
    choose|r: int| is_sqrt_floor(x, r)
}

proof fn lemma_sqrt_exists(x: int)
    requires
        x >= 0,
    ensures
        exists|r: int| is_sqrt_floor(x, r),
    decreases x,
{
    if x == 0 {
        assert(is_sqrt_floor(0, 0));
    } else {
        lemma_sqrt_exists(x - 1);
        let p = sqrt_floor(x - 1);
        assert(is_sqrt_floor(x - 1, p));
        if x < (p + 1) * (p + 1) {
            assert(is_sqrt_floor(x, p));
        } else {
            assert(x == (p + 1) * (p + 1));
            assert((p + 1) * (p + 1) < (p + 2) * (p + 2)) by (nonlinear_arith)
                requires p >= 0;
            assert(is_sqrt_floor(x, p + 1));
        }
    }
}

/// `sqrt_floor(x)` is characterised by `r^2 <= x < (r+1)^2`.
pub proof fn lemma_sqrt_floor_is(x: int, r: int)
    requires
        0 <= r,
        r * r <= x,
        x < (r + 1) * (r + 1),
    ensures
        sqrt_floor(x) == r,
{
    lemma_sqrt_exists(x);
    let q = sqrt_floor(x);
    assert(is_sqrt_floor(x, q));
    if q < r {
        assert((q + 1) * (q + 1) <= r * r) by (nonlinear_arith)
            requires 0 <= q && q < r;
        assert(false);
    }
    if r < q {
        assert((r + 1) * (r + 1) <= q * q) by (nonlinear_arith)
            requires 0 <= r && r < q;
        assert(false);
    }
}

pub proof fn lemma_sqrt_floor_props(x: int)
    requires
        x >= 0,
    ensures
        0 <= sqrt_floor(x),
        sqrt_floor(x) * sqrt_floor(x) <= x,
        x < (sqrt_floor(x) + 1) * (sqrt_floor(x) + 1),
{
    lemma_sqrt_exists(x);
}

/// The square root floor never exceeds a bound whose square bounds the input.
pub proof fn lemma_sqrt_floor_le(x: int, b: int)
    requires
        0 <= x,
        0 <= b,
        x <= b * b,
    ensures
        sqrt_floor(x) <= b,
{
    lemma_sqrt_floor_props(x);
    let q = sqrt_floor(x);
    if q > b {
        assert((b + 1) * (b + 1) <= q * q) by (nonlinear_arith)
            requires 0 <= b && b < q;
        assert(b * b < (b + 1) * (b + 1)) by (nonlinear_arith)
            requires 0 <= b;
        assert(false);
    }
}

/// Binary-search integer square root over `u64`.
pub fn isqrt64(x: u64) -> (r: u64)
    ensures
        r as int == sqrt_floor(x as int),
        (r as int) * (r as int) <= x as int,
        (x as int) < (r as int + 1) * (r as int + 1),
{
    let mut lo: u64 = 0;
    let mut hi: u64 = 4294967296;
    assert((4294967296 as int) * (4294967296 as int) > u64::MAX as int) by (nonlinear_arith);
    while lo + 1 < hi
        invariant
            lo < hi <= 4294967296,
            (lo as int) * (lo as int) <= x as int,
            (x as int) < (hi as int) * (hi as int),
        decreases hi - lo,
    {
        let mid: u64 = lo + (hi - lo) / 2;
        assert(lo < mid < hi);
        assert((mid as int) * (mid as int) <= (4294967296 as int) * (4294967296 as int))
            by (nonlinear_arith)
            requires 0 <= mid <= 4294967296;
        let sq: u128 = (mid as u128) * (mid as u128);
        if sq <= x as u128 {
            lo = mid;
        } else {
            hi = mid;
        }
    }
    proof {
        assert((lo as int + 1) * (lo as int + 1) >= (hi as int) * (hi as int))
            by (nonlinear_arith)
            requires lo as int + 1 >= hi as int && hi >= 1;
        lemma_sqrt_floor_is(x as int, lo as int);
    }
    lo
}

} // verus!
