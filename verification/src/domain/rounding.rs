//! The single rounding site: banker's rounding, half to even, and the
//! integer-division facts every money rule in this crate leans on.

use vstd::prelude::*;

verus! {

/// `n / d` rounded to the nearest integer, ties to the even neighbour.
/// Spec division is Euclidean, which for a positive `d` is the floor.
pub open spec fn half_even(n: int, d: int) -> int {
    let q = n / d;
    let r = n % d;
    if 2 * r > d || (2 * r == d && q % 2 != 0) {
        q + 1
    } else {
        q
    }
}

/// Integer division the way Rust's `/` does it: rounded toward zero.
pub open spec fn trunc_div(n: int, d: int) -> int {
    if n >= 0 {
        n / d
    } else {
        -((-n) / d)
    }
}

/// Banker's rounding of `numer / denom`, half to even. The result is cast to
/// `i64` exactly as `as` casts it: callers whose quotient fits get it exactly.
pub fn round_half_even(numer: i128, denom: i128) -> (r: i64)
    requires
        denom > 0,
    ensures
        r == half_even(numer as int, denom as int) as i64,
{
    proof {
        lemma_floor_div_bounds(numer as int, denom as int);
    }
    let quot = numer.checked_div_euclid(denom).unwrap();
    let rem = numer.checked_rem_euclid(denom).unwrap();
    let other = denom - rem;
    let round_up = rem > other || (rem == other && quot % 2 != 0);
    if round_up {
        proof {
            if denom == 1 {
                assert(rem == 0);
            }
            assert(quot <= numer / 2 || numer < 0) by (nonlinear_arith)
                requires
                    denom >= 2,
                    quot == numer / denom,
            ;
        }
        (quot + 1) as i64
    } else {
        quot as i64
    }
}

pub proof fn lemma_floor_div_bounds(n: int, d: int)
    requires
        d > 0,
    ensures
        n >= 0 ==> 0 <= n / d <= n,
        n < 0 ==> n <= n / d < 0,
        (n / d) * d <= n < (n / d) * d + d,
        0 <= n % d < d,
        n == (n / d) * d + n % d,
{
    assert((n / d) * d + n % d == n) by (nonlinear_arith)
        requires
            d > 0,
    ;
    assert(n >= 0 ==> 0 <= n / d <= n) by (nonlinear_arith)
        requires
            d > 0,
    ;
    assert(n < 0 ==> n <= n / d < 0) by (nonlinear_arith)
        requires
            d > 0,
    ;
}

/// Half-even rounding lands on the floor or one past it.
pub proof fn lemma_half_even_bounds(n: int, d: int)
    requires
        d > 0,
    ensures
        n / d <= half_even(n, d) <= n / d + 1,
        d * half_even(n, d) <= n + d,
        d * half_even(n, d) >= n - d,
        2 * d * half_even(n, d) <= 2 * n + d,
        2 * d * half_even(n, d) >= 2 * n - d,
{
    lemma_floor_div_bounds(n, d);
    let q = n / d;
    let r = n % d;
    assert(d * q == q * d) by (nonlinear_arith);
    assert(d * (q + 1) == q * d + d) by (nonlinear_arith);
    assert(2 * d * q == 2 * (q * d)) by (nonlinear_arith);
    assert(2 * d * (q + 1) == 2 * (q * d) + 2 * d) by (nonlinear_arith);
}

/// A non-negative numerator no larger than `total * d` rounds into `0..=total`.
pub proof fn lemma_half_even_within(n: int, d: int, total: int)
    requires
        d > 0,
        0 <= n <= total * d,
    ensures
        0 <= half_even(n, d) <= total,
{
    lemma_floor_div_bounds(n, d);
    let q = n / d;
    let r = n % d;
    assert(q <= total) by (nonlinear_arith)
        requires
            q * d <= n,
            n <= total * d,
            d > 0,
    ;
    if q == total {
        assert(r == 0) by (nonlinear_arith)
            requires
                n == q * d + r,
                n <= total * d,
                q == total,
                r >= 0,
        ;
    }
}

/// Half-even rounding never decreases as the numerator grows.
pub proof fn lemma_half_even_monotone(a: int, b: int, d: int)
    requires
        d > 0,
        a <= b,
    ensures
        half_even(a, d) <= half_even(b, d),
{
    lemma_floor_div_bounds(a, d);
    lemma_floor_div_bounds(b, d);
    let qa = a / d;
    let qb = b / d;
    assert(qa <= qb) by (nonlinear_arith)
        requires
            qa * d <= a,
            a <= b,
            b < qb * d + d,
            d > 0,
    ;
    if qa == qb {
        assert(a % d <= b % d);
    }
}

/// Rust's `/` on `i128` for a positive divisor.
pub fn div_toward_zero(n: i128, d: i128) -> (r: i128)
    requires
        d > 0,
        n > i128::MIN,
    ensures
        r == trunc_div(n as int, d as int),
{
    if n >= 0 {
        proof {
            lemma_floor_div_bounds(n as int, d as int);
        }
        n / d
    } else {
        let m = -n;
        proof {
            lemma_floor_div_bounds(m as int, d as int);
        }
        -(m / d)
    }
}

/// Truncating division by a positive divisor never grows the magnitude.
pub proof fn lemma_trunc_div_bounds(n: int, d: int)
    requires
        d > 0,
    ensures
        n >= 0 ==> 0 <= trunc_div(n, d) <= n,
        n < 0 ==> n <= trunc_div(n, d) <= 0,
{
    lemma_floor_div_bounds(n, d);
    lemma_floor_div_bounds(-n, d);
}

/// Any product of two `i64` values fits in an `i128` with room to spare.
pub proof fn lemma_i64_product(a: int, b: int)
    requires
        i64::MIN <= a <= i64::MAX,
        i64::MIN <= b <= i64::MAX,
    ensures
        -0x4000_0000_0000_0000_0000_0000_0000_0000 <= a * b <= 0x4000_0000_0000_0000_0000_0000_0000_0000,
{
    assert(-0x4000_0000_0000_0000_0000_0000_0000_0000 <= a * b <= 0x4000_0000_0000_0000_0000_0000_0000_0000)
        by (nonlinear_arith)
        requires
            -0x8000_0000_0000_0000 <= a <= 0x7fff_ffff_ffff_ffff,
            -0x8000_0000_0000_0000 <= b <= 0x7fff_ffff_ffff_ffff,
    ;
}

} // verus!
