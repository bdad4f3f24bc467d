//! Integer helpers shared by the launch geometry.

use vstd::prelude::*;

verus! {

/// `a / b`, rounded up.
pub open spec fn ceil_div(a: int, b: int) -> int {
    (a + b - 1) / b
}

/// `ceil_div(a, b)` is the least number of `b`s that reaches `a`.
pub proof fn ceil_div_covers(a: int, b: int)
    requires
        0 <= a,
        0 < b,
    ensures
        0 <= ceil_div(a, b) <= a,
        ceil_div(a, b) * b >= a,
        a > 0 ==> (ceil_div(a, b) - 1) * b < a,
        a == 0 ==> ceil_div(a, b) == 0,
        a > 0 ==> ceil_div(a, b) >= 1,
{
    let q = ceil_div(a, b);
    assert(q * b <= a + b - 1 < (q + 1) * b) by (nonlinear_arith)
        requires
            q == (a + b - 1) / b,
            0 < b,
    ;
    assert((q + 1) * b == q * b + b) by (nonlinear_arith);
    assert((q - 1) * b == q * b - b) by (nonlinear_arith);
    if q < 0 {
        assert((q + 1) * b <= 0) by (nonlinear_arith)
            requires
                q + 1 <= 0,
                0 < b,
        ;
    }
    if a > 0 && q < 1 {
        assert(q * b <= 0) by (nonlinear_arith)
            requires
                q <= 0,
                0 < b,
        ;
    }
    if a == 0 && q >= 1 {
        assert(q * b >= b) by (nonlinear_arith)
            requires
                q >= 1,
                0 < b,
        ;
    }
    if q > a {
        assert(q * b >= (a + 1) * b) by (nonlinear_arith)
            requires
                q >= a + 1,
                0 < b,
        ;
        assert((a + 1) * b >= a + b) by (nonlinear_arith)
            requires
                0 <= a,
                0 < b,
        ;
    }
}

/// Division rounding up, without the overflow `a + b - 1` could have.
pub fn div_ceil(a: usize, b: usize) -> (q: usize)
    requires
        b > 0,
    ensures
        q == ceil_div(a as int, b as int),
        q <= a,
{
    let floor: usize = a / b;
    proof {
        ceil_div_covers(a as int, b as int);
        lemma_ceil_of_parts(a as int, b as int);
        assert(floor <= a) by (nonlinear_arith)
            requires
                floor == a as int / b as int,
                b > 0,
                a >= 0,
        ;
    }
    if a % b == 0 {
        floor
    } else {
        floor + 1
    }
}

/// [`div_ceil`] at 32 bits.
pub fn div_ceil_u32(a: u32, b: u32) -> (q: u32)
    requires
        b > 0,
    ensures
        q == ceil_div(a as int, b as int),
        q <= a,
{
    let floor: u32 = a / b;
    proof {
        ceil_div_covers(a as int, b as int);
        lemma_ceil_of_parts(a as int, b as int);
    }
    if a % b == 0 {
        floor
    } else {
        floor + 1
    }
}

proof fn lemma_ceil_of_parts(a: int, b: int)
    requires
        0 <= a,
        0 < b,
    ensures
        a % b == 0 ==> ceil_div(a, b) == a / b,
        a % b != 0 ==> ceil_div(a, b) == a / b + 1,
{
    let q = a / b;
    let r = a % b;
    vstd::arithmetic::div_mod::lemma_fundamental_div_mod(a, b);
    assert(b * q == q * b) by (nonlinear_arith);
    if r == 0 {
        vstd::arithmetic::div_mod::lemma_fundamental_div_mod_converse(a + b - 1, b, q, b - 1);
    } else {
        assert((q + 1) * b == q * b + b) by (nonlinear_arith);
        assert(b * (q + 1) == (q + 1) * b) by (nonlinear_arith);
        vstd::arithmetic::div_mod::lemma_fundamental_div_mod_converse(a + b - 1, b, q + 1, r - 1);
    }
}

/// The least power of two that is not below `n`.
pub open spec fn next_pow2(n: int) -> int
    decreases n,
{
    if n <= 1 {
        1
    } else {
        2 * next_pow2((n + 1) / 2)
    }
}

/// Whether `n` is one, or twice a power of two.
pub open spec fn is_pow2(n: int) -> bool
    decreases n,
{
    n == 1 || (n > 1 && n % 2 == 0 && is_pow2(n / 2))
}

/// [`next_pow2`] is a power of two, reaches `n`, and is less than twice as far.
pub proof fn next_pow2_is_least(n: int)
    requires
        1 <= n,
    ensures
        is_pow2(next_pow2(n)),
        n <= next_pow2(n) < 2 * n,
    decreases n,
{
    if n > 1 {
        next_pow2_is_least((n + 1) / 2);
    }
}

/// A power of two below `n` is at most half of `n` rounded up to one.
pub proof fn pow2_below_doubles(p: int, n: int)
    requires
        is_pow2(p),
        p < n,
    ensures
        2 * p <= next_pow2(n),
    decreases p,
{
    if p > 1 {
        pow2_below_doubles(p / 2, (n + 1) / 2);
    } else {
        next_pow2_is_least(n);
        if n == 2 {
            assert(next_pow2((n + 1) / 2) == 1);
        }
    }
}

/// The least power of two that is not below `n`.
pub fn next_power_of_two(n: usize) -> (p: usize)
    requires
        next_pow2(n as int) <= usize::MAX,
    ensures
        p == next_pow2(n as int),
    decreases n,
{
    if n <= 1 {
        1
    } else {
        let half: usize = n - n / 2;
        proof {
            assert(half == (n + 1) / 2);
            next_pow2_is_least(half as int);
        }
        2 * next_power_of_two(half)
    }
}

/// [`next_power_of_two`], where that is a number of this machine.
pub fn checked_power_of_two(n: usize) -> (p: Option<usize>)
    ensures
        match p {
            Some(p) => p == next_pow2(n as int),
            None => next_pow2(n as int) > usize::MAX,
        },
    decreases n,
{
    if n <= 1 {
        Some(1)
    } else {
        let half: usize = n - n / 2;
        assert(half == (n + 1) / 2);
        match checked_power_of_two(half) {
            Some(p) => p.checked_mul(2),
            None => None,
        }
    }
}

/// A place in rows of `w` names its row and its column.
pub(crate) proof fn lemma_unflatten(x: int, i: int, y: int, j: int, w: int)
    requires
        0 <= i < w,
        0 <= j < w,
        x * w + i == y * w + j,
    ensures
        x == y,
        i == j,
{
    assert(x == y) by (nonlinear_arith)
        requires
            0 <= i < w,
            0 <= j < w,
            x * w + i == y * w + j,
    ;
}

/// Whether the product of two lengths is a number of this machine.
pub fn product_fits(a: usize, b: usize) -> (fits: bool)
    ensures
        fits == (a * b <= usize::MAX),
{
    a.checked_mul(b).is_some()
}

/// Whether their sum is.
pub fn sum_fits(a: usize, b: usize) -> (fits: bool)
    ensures
        fits == (a + b <= usize::MAX),
{
    a.checked_add(b).is_some()
}

/// The smaller of two lengths.
pub fn lesser(a: usize, b: usize) -> (m: usize)
    ensures
        m == vstd::math::min(a as int, b as int),
{
    if a <= b {
        a
    } else {
        b
    }
}

/// The larger of two lengths.
pub fn greater(a: usize, b: usize) -> (m: usize)
    ensures
        m == vstd::math::max(a as int, b as int),
{
    if a >= b {
        a
    } else {
        b
    }
}

} // verus!
