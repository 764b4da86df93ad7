//! Properties that tie the lending rules to one another.

use vstd::prelude::*;

use super::loans::{borrowable, collateral_needed, collateral_stroops, collateral_value, deposit_collateral};
use super::rates::{RATE_SCALE, derived_rate};
use super::rounding::trunc_div;

verus! {

/// Freezing the deposit a loan requires and then borrowing the most that
/// deposit allows gives back exactly the loan, and one centavo less of
/// deposit would not: the collateral rounds against the borrower by less than
/// a centavo, so the loan-to-value ratio is never exceeded. It holds wherever
/// that rounded-up deposit fits in an `i64`.
pub proof fn law_deposit_ltv_round_trip(amount: i64, ltv_pct: i64)
    requires
        1 <= amount,
        1 <= ltv_pct <= 100,
        (amount * 100 + ltv_pct - 1) / (ltv_pct as int) <= i64::MAX,
    ensures
        borrowable(deposit_collateral(amount, ltv_pct), ltv_pct) == amount,
        borrowable((deposit_collateral(amount, ltv_pct) - 1) as i64, ltv_pct) < amount,
{
    let d = ltv_pct as int;
    let a = amount as int;
    let req = (a * 100 + d - 1) / d;
    assert(req * d >= a * 100 && (req - 1) * d < a * 100 && 1 <= req) by (nonlinear_arith)
        requires
            1 <= d <= 100,
            a >= 1,
            req == (a * 100 + d - 1) / d,
    ;
    assert(deposit_collateral(amount, ltv_pct) == req);
    assert((req * d) / 100 == a && ((req - 1) * d) / 100 < a && 0 <= (req - 1) * d) by (nonlinear_arith)
        requires
            req * d >= a * 100,
            (req - 1) * d < a * 100,
            req >= 1,
            1 <= d <= 100,
    ;
    assert(trunc_div(req * d, 100) == (req * d) / 100);
    assert(trunc_div((req - 1) * d, 100) == ((req - 1) * d) / 100);
}

/// The stroops a loan requires, rounded up from its collateral at the rate,
/// when the rate is a whole positive number of centavos.
pub open spec fn stroops_needed(amount: i64, min_pct: i64, centavos_per_xlm: i64) -> int {
    (collateral_needed(amount, min_pct) * 10_000_000 + centavos_per_xlm - 1) / (centavos_per_xlm as int)
}

/// The XLM a loan requires is worth at least the required share of the loan
/// at the rate it was priced at, and one stroop less would not be. It holds
/// wherever the rounded-up stroops, and what they are worth, fit in an `i64`.
pub proof fn law_xlm_collateral_covers(amount: i64, min_pct: i64, centavos_per_xlm: i64)
    requires
        0 <= amount,
        0 <= min_pct,
        1 <= centavos_per_xlm,
        stroops_needed(amount, min_pct, centavos_per_xlm) <= i64::MAX,
        stroops_needed(amount, min_pct, centavos_per_xlm) * centavos_per_xlm / 10_000_000 <= i64::MAX,
    ensures
        collateral_value(collateral_stroops(amount, min_pct, centavos_per_xlm), centavos_per_xlm)
            >= collateral_needed(amount, min_pct),
        collateral_needed(amount, min_pct) >= 1 ==> collateral_value(
            (collateral_stroops(amount, min_pct, centavos_per_xlm) - 1) as i64,
            centavos_per_xlm,
        ) < collateral_needed(amount, min_pct),
        collateral_needed(amount, min_pct) * 100 >= amount * min_pct,
{
    let n = collateral_needed(amount, min_pct);
    let r = centavos_per_xlm as int;
    assert(amount * min_pct >= 0) by (nonlinear_arith)
        requires
            amount >= 0,
            min_pct >= 0,
    ;
    assert(n == (amount * min_pct + 99) / 100);
    assert(n * 100 >= amount * min_pct && n >= 0) by (nonlinear_arith)
        requires
            amount * min_pct >= 0,
            n == (amount * min_pct + 99) / 100,
    ;
    let s = stroops_needed(amount, min_pct, centavos_per_xlm);
    assert(s * r >= n * 10_000_000 && (s - 1) * r < n * 10_000_000 && 0 <= s) by (nonlinear_arith)
        requires
            r >= 1,
            n >= 0,
            s == (n * 10_000_000 + r - 1) / r,
    ;
    assert(collateral_stroops(amount, min_pct, centavos_per_xlm) == s);
    assert((s * r) / 10_000_000 >= n && s * r >= 0) by (nonlinear_arith)
        requires
            s * r >= n * 10_000_000,
            n >= 0,
            r >= 1,
            s >= 0,
    ;
    assert(trunc_div(s * r, 10_000_000) == (s * r) / 10_000_000);
    if n >= 1 {
        assert(s >= 1) by (nonlinear_arith)
            requires
                s * r >= n * 10_000_000,
                n >= 1,
                r >= 1,
        ;
        assert(((s - 1) * r) / 10_000_000 < n && (s - 1) * r >= 0) by (nonlinear_arith)
            requires
                (s - 1) * r < n * 10_000_000,
                s >= 1,
                r >= 1,
        ;
        assert(trunc_div((s - 1) * r, 10_000_000) == ((s - 1) * r) / 10_000_000);
    }
}

/// Crossing a rate with a leg of exactly one (one peso to the dollar, at the
/// rate scale) leaves it unchanged.
pub proof fn law_identity_leg(usd_per_xlm: i64)
    ensures
        derived_rate(usd_per_xlm, RATE_SCALE) == usd_per_xlm,
{
    let x = usd_per_xlm as int;
    assert((x * 100_000_000) / 100_000_000 == x) by (nonlinear_arith);
    assert((-(x * 100_000_000)) / 100_000_000 == -x) by (nonlinear_arith);
}

} // verus!
