//! Rounded square roots of ratios, used to scale a direction to a given length
//! with integer arithmetic.
use vstd::prelude::*;

verus! {

/// `n` is the least natural number whose square times `b` reaches `a`,
/// that is `n == ceil(sqrt(a / b))` for `b > 0`.
pub open spec fn is_ceil_root(n: int, a: int, b: int) -> bool {
    n >= 0 && n * n * b >= a && (n == 0 || (n - 1) * (n - 1) * b < a)
}

/// `ceil(sqrt(a / b))`.
pub open spec fn ceil_root(a: int, b: int) -> int {
    choose|n: int| is_ceil_root(n, a, b)
}

/// `sign(d) * ceil(|d| * r / sqrt(n2))`: the component `d` of a vector of squared
/// length `n2`, scaled to length `r` and rounded away from zero.
pub open spec fn away_root(d: int, r: int, n2: int) -> int {
    if d >= 0 {
        ceil_root(d * d * (r * r), n2)
    } else {
        -ceil_root(d * d * (r * r), n2)
    }
}

/// `v / 2`, rounded away from zero.
pub open spec fn half_away(v: int) -> int {
    if v >= 0 {
        (v + 1) / 2
    } else {
        -((-v + 1) / 2)
    }
}

pub proof fn lemma_square_mono(n: int, m: int, b: int)
    requires
        0 <= n <= m,
        b >= 0,
    ensures
        n * n * b <= m * m * b,
{
    assert(n * n <= m * m) by (nonlinear_arith)
        requires
            0 <= n <= m,
    ;
    assert(n * n * b <= m * m * b) by (nonlinear_arith)
        requires
            n * n <= m * m,
            b >= 0,
    ;
}

proof fn lemma_ceil_root_exists(a: int, b: int, k: int)
    requires
        k >= 0,
        b >= 0,
        k * k * b >= a,
    ensures
        exists|n: int| is_ceil_root(n, a, b),
    decreases k,
{
    if k == 0 || (k - 1) * (k - 1) * b < a {
        assert(is_ceil_root(k, a, b));
    } else {
        lemma_ceil_root_exists(a, b, k - 1);
    }
}

proof fn lemma_ceil_root_least(n: int, m: int, a: int, b: int)
    requires
        is_ceil_root(n, a, b),
        m >= 0,
        m * m * b >= a,
        b >= 0,
    ensures
        n <= m,
{
    if n > m {
        lemma_square_mono(m, n - 1, b);
    }
}

/// Whenever some `k` has `k * k * b >= a`, the rounded root exists and is at most `k`.
pub proof fn lemma_ceil_root(a: int, b: int, k: int)
    requires
        k >= 0,
        b >= 0,
        k * k * b >= a,
    ensures
        is_ceil_root(ceil_root(a, b), a, b),
        ceil_root(a, b) <= k,
{
    lemma_ceil_root_exists(a, b, k);
    lemma_ceil_root_least(ceil_root(a, b), k, a, b);
}

/// The rounded root is the only number with its defining property.
pub proof fn lemma_ceil_root_unique(n: int, a: int, b: int)
    requires
        is_ceil_root(n, a, b),
        b >= 0,
    ensures
        ceil_root(a, b) == n,
{
    lemma_ceil_root(a, b, n);
    lemma_ceil_root_least(n, ceil_root(a, b), a, b);
}

/// The rounded root of zero is zero.
pub proof fn lemma_ceil_root_zero(b: int)
    requires
        b >= 0,
    ensures
        ceil_root(0, b) == 0,
{
    lemma_ceil_root_unique(0, 0, b);
}

/// `ceil(sqrt(a / b))`, found by bisection below `hi`.
pub fn ceil_root_below(a: u128, b: u128, hi: u64) -> (n: u64)
    requires
        b >= 1,
        hi as int * hi as int * b as int >= a,
        hi as int * hi as int * b as int <= u128::MAX,
    ensures
        n == ceil_root(a as int, b as int),
        n <= hi,
{
    let mut lo: u64 = 0;
    let mut top: u64 = hi;
    while lo < top
        invariant
            lo <= top <= hi,
            b >= 1,
            top as int * top as int * b as int >= a,
            hi as int * hi as int * b as int <= u128::MAX,
            lo == 0 || (lo - 1) * (lo - 1) * b < a,
        decreases top - lo,
    {
        let mid: u64 = lo + (top - lo) / 2;
        proof {
            lemma_square_mono(mid as int, hi as int, b as int);
            assert(mid as int * mid as int <= mid as int * mid as int * b as int) by (nonlinear_arith)
                requires
                    b >= 1,
            ;
        }
        let sq: u128 = (mid as u128) * (mid as u128) * b;
        if sq >= a {
            top = mid;
        } else {
            lo = mid + 1;
        }
    }
    proof {
        lemma_ceil_root_unique(lo as int, a as int, b as int);
    }
    lo
}

/// `sign(d) * ceil(|d| * r / sqrt(n2))` for a component `d` of a vector of
/// squared length `n2`; at most `r` in absolute value.
pub fn away_root_exec(d: i64, r: i64, n2: u128) -> (s: i64)
    requires
        0 <= r <= 0x8000_0000,
        n2 >= 1,
        d * d <= n2,
        n2 <= 0x1_0000_0000_0000_0000,
    ensures
        s == away_root(d as int, r as int, n2 as int),
        -r <= s <= r,
{
    let ad: i64 = if d >= 0 {
        d
    } else {
        assert(d >= -0x1_0000_0000) by (nonlinear_arith)
            requires
                d * d <= 0x1_0000_0000_0000_0000,
        ;
        -d
    };
    assert(ad * ad == d * d) by (nonlinear_arith)
        requires
            ad == d || ad == -d,
    ;
    assert(ad <= 0x1_0000_0000) by (nonlinear_arith)
        requires
            ad * ad <= 0x1_0000_0000_0000_0000,
            ad >= 0,
    ;
    let sq_d: u128 = (ad as u128) * (ad as u128);
    assert(r * r <= 0x4000_0000_0000_0000) by (nonlinear_arith)
        requires
            0 <= r <= 0x8000_0000,
    ;
    let sq_r: u128 = (r as u128) * (r as u128);
    assert(sq_d as int * sq_r as int <= n2 as int * sq_r as int) by (nonlinear_arith)
        requires
            sq_d <= n2,
            sq_r >= 0,
    ;
    assert(n2 as int * sq_r as int <= 0x1_0000_0000_0000_0000 * 0x4000_0000_0000_0000)
        by (nonlinear_arith)
        requires
            n2 <= 0x1_0000_0000_0000_0000,
            sq_r <= 0x4000_0000_0000_0000,
            sq_r >= 0,
    ;
    let a: u128 = sq_d * sq_r;
    assert(r as int * r as int * n2 as int == n2 as int * sq_r as int) by (nonlinear_arith)
        requires
            sq_r == r * r,
    ;
    let n = ceil_root_below(a, n2, r as u64);
    if d >= 0 {
        n as i64
    } else {
        -(n as i64)
    }
}

/// `v / 2`, rounded away from zero.
pub fn half_away_exec(v: i64) -> (r: i64)
    requires
        -0x1_0000_0000_0000 <= v <= 0x1_0000_0000_0000,
    ensures
        r == half_away(v as int),
{
    if v >= 0 {
        (v + 1) / 2
    } else {
        -((-v + 1) / 2)
    }
}

} // verus!
