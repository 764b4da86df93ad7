//! Payment-provider fees: what a rail keeps on the way in and charges on the way out.

use vstd::prelude::*;
use crate::policy::{PolicyParams, RailFees};
use super::rounding::{
    half_even, lemma_half_even_bounds, lemma_half_even_within, lemma_i64_product,
    lemma_floor_div_bounds, round_half_even, trunc_div, div_toward_zero,
};

verus! {

/// A rail's fees are usable: both rates in `0..10000` basis points, the fixed
/// fee and the payout cap not negative.
pub open spec fn rail_fees_valid(f: RailFees) -> bool {
    &&& 0 <= f.receive_bps < 10_000
    &&& 0 <= f.payout_bps < 10_000
    &&& f.receive_fixed >= 0
    &&& f.payout_cap >= 0
}

/// The receiving side of a rail is usable: a rate in `0..10000` and no negative fixed fee.
pub open spec fn receive_fees_valid(f: RailFees) -> bool {
    0 <= f.receive_bps < 10_000 && f.receive_fixed >= 0
}

pub open spec fn rail_rates_valid(f: RailFees) -> bool {
    0 <= f.receive_bps < 10_000 && 0 <= f.payout_bps < 10_000
}

/// The fee table is usable, rail by rail (PayPal first): a rate outside
/// `0..10000` is refused before a negative fixed fee or cap is.
pub fn check_payment_fees(params: &PolicyParams) -> (r: Result<(), &'static str>)
    ensures
        r is Ok <==> rail_fees_valid(params.payment_fees.paypal) && rail_fees_valid(
            params.payment_fees.stripe,
        ),
        r matches Err(why) ==> {
            let p = params.payment_fees.paypal;
            let s = params.payment_fees.stripe;
            if !rail_rates_valid(p) || (p.receive_fixed >= 0 && p.payout_cap >= 0 && !rail_rates_valid(s)) {
                why@ == "fee rates must be 0..10000 bps"@
            } else {
                why@ == "fixed fees and caps must not be negative"@
            }
        },
{
    let rails = [params.payment_fees.paypal, params.payment_fees.stripe];
    let mut i: usize = 0;
    while i < 2
        invariant
            i <= 2,
            rails@ == seq![params.payment_fees.paypal, params.payment_fees.stripe],
            forall|k: int| 0 <= k < i ==> rail_fees_valid(#[trigger] rails@[k]),
        decreases 2 - i,
    {
        let fees = rails[i];
        if !(0 <= fees.receive_bps && fees.receive_bps < 10_000) || !(0 <= fees.payout_bps
            && fees.payout_bps < 10_000) {
            return Err("fee rates must be 0..10000 bps");
        }
        if fees.receive_fixed < 0 || fees.payout_cap < 0 {
            return Err("fixed fees and caps must not be negative");
        }
        i = i + 1;
    }
    Ok(())
}

pub open spec fn nonneg(v: i64) -> int {
    if v > 0 {
        v as int
    } else {
        0
    }
}

/// The provider's expected cut of `charged` centavos paid in: the rate,
/// rounded half to even, plus the fixed fee.
pub open spec fn receive_fee(charged: i64, fees: RailFees) -> int {
    (half_even(nonneg(charged) * fees.receive_bps, 10_000) as i64) + fees.receive_fixed
}

/// What the provider is expected to keep when `charged` centavos are paid in.
pub fn receive_fee_estimate(charged: i64, fees: &RailFees) -> (r: i64)
    requires
        i64::MIN <= receive_fee(charged, *fees) <= i64::MAX,
    ensures
        r == receive_fee(charged, *fees),
{
    let c: i64 = if charged > 0 {
        charged
    } else {
        0
    };
    proof {
        lemma_i64_product(c as int, fees.receive_bps as int);
    }
    round_half_even(c as i128 * fees.receive_bps as i128, 10_000) + fees.receive_fixed
}

/// The closed-form starting point of a gross-up: `(applies + fixed) / (1 - rate)`, rounded up.
pub open spec fn gross_start(applies: int, fees: RailFees) -> int {
    let d = 10_000 - fees.receive_bps;
    trunc_div((applies + fees.receive_fixed) * 10_000 + d - 1, d)
}

/// Whether charging `total` leaves at least `applies` after the expected fee.
pub open spec fn leaves(total: int, applies: int, fees: RailFees) -> bool {
    total - receive_fee(total as i64, fees) >= applies
}

proof fn lemma_fee_facts(t: int, fees: RailFees)
    requires
        0 <= fees.receive_bps < 10_000,
        fees.receive_fixed >= 0,
        0 <= t <= i64::MAX,
    ensures
        0 <= half_even(t * fees.receive_bps, 10_000) <= t,
        (half_even(t * fees.receive_bps, 10_000) as i64) == half_even(t * fees.receive_bps, 10_000),
        2 * 10_000 * half_even(t * fees.receive_bps, 10_000) <= 2 * t * fees.receive_bps + 10_000,
{
    let b = fees.receive_bps as int;
    assert(0 <= t * b <= t * 10_000) by (nonlinear_arith)
        requires
            0 <= t,
            0 <= b < 10_000,
    ;
    lemma_half_even_within(t * b, 10_000, t);
    lemma_half_even_bounds(t * b, 10_000);
    assert(2 * (t * b) == 2 * t * b) by (nonlinear_arith);
}

/// What is left of a charge after the expected receiving fee never shrinks
/// as the charge grows: below a 100 percent rate, each centavo more charged
/// costs at most one centavo more of fee.
pub proof fn lemma_left_after_fee_grows(s: i64, t: i64, fees: RailFees)
    requires
        receive_fees_valid(fees),
        s <= t,
    ensures
        s - receive_fee(s, fees) <= t - receive_fee(t, fees),
{
    let b = fees.receive_bps as int;
    if t > 0 {
        lemma_fee_facts(t as int, fees);
    }
    if s > 0 {
        lemma_fee_facts(s as int, fees);
        let k = t - s;
        let hs = half_even(s * b, 10_000);
        let ht = half_even(t * b, 10_000);
        lemma_half_even_bounds(s * b, 10_000);
        lemma_half_even_bounds(t * b, 10_000);
        assert(t * b - s * b == k * b) by (nonlinear_arith)
            requires
                k == t - s,
        ;
        if k > 0 {
            assert(k * b <= 9_999 * k) by (nonlinear_arith)
                requires
                    k >= 0,
                    0 <= b <= 9_999,
            ;
            assert(ht - hs <= k);
        }
    }
}

/// Whether charging `total` leaves at least `applies` after the expected fee.
fn leaves_enough(total: i64, applies: i64, fees: &RailFees) -> (r: bool)
    requires
        receive_fees_valid(*fees),
        0 <= total,
        total + fees.receive_fixed < i64::MAX,
    ensures
        r == leaves(total as int, applies as int, *fees),
{
    proof {
        lemma_fee_facts(total as int, *fees);
    }
    total - receive_fee_estimate(total, fees) >= applies
}

/// The total to charge so that, after the expected receiving fee, at least
/// `applies` (held at zero or above) centavos are left, and charging one
/// centavo less would leave less. Returns `(total, fee)` with
/// `total = applies + fee`.
pub fn gross_up(applies: i64, fees: &RailFees) -> (r: (i64, i64))
    requires
        receive_fees_valid(*fees),
        nonneg(applies) + fees.receive_fixed <= i64::MAX,
        gross_start(nonneg(applies), *fees) + fees.receive_fixed < i64::MAX,
    ensures
        r.0 == nonneg(applies) + r.1,
        r.0 >= nonneg(applies),
        leaves(r.0 as int, nonneg(applies), *fees),
        !leaves(r.0 - 1, nonneg(applies), *fees),
        forall|t: i64| t < r.0 ==> !#[trigger] leaves(t as int, nonneg(applies), *fees),
{
    let applies: i64 = if applies > 0 {
        applies
    } else {
        0
    };
    let b = fees.receive_bps;
    let f = fees.receive_fixed;
    let denom: i128 = (10_000 - b) as i128;
    let a = applies + f;
    proof {
        lemma_i64_product(a as int, 10_000);
    }
    let start = div_toward_zero(a as i128 * 10_000 + denom - 1, denom);
    proof {
        let dd = denom as int;
        let nn = a * 10_000 + dd - 1;
        lemma_floor_div_bounds(nn, dd);
        let t = start as int;
        assert(t == nn / dd);
        assert(t * dd >= a * 10_000) by (nonlinear_arith)
            requires
                t * dd <= nn < t * dd + dd,
                nn == a * 10_000 + dd - 1,
                dd > 0,
        ;
        assert(t >= applies) by (nonlinear_arith)
            requires
                t * dd >= a * 10_000,
                a >= applies,
                0 < dd <= 10_000,
                applies >= 0,
        ;
        lemma_fee_facts(t, *fees);
        let h = half_even(t * b, 10_000);
        assert(t - (h + f) >= applies) by (nonlinear_arith)
            requires
                t * dd >= (applies + f) * 10_000,
                dd == 10_000 - b,
                2 * 10_000 * h <= 2 * t * b + 10_000,
        ;
    }
    let mut total = start as i64;
    while total > applies && leaves_enough(total - 1, applies, fees)
        invariant
            receive_fees_valid(*fees),
            applies >= 0,
            applies <= total <= start,
            f == fees.receive_fixed,
            start + f < i64::MAX,
            leaves(total as int, applies as int, *fees),
        decreases total,
    {
        total = total - 1;
    }
    while !leaves_enough(total, applies, fees)
        invariant
            receive_fees_valid(*fees),
            applies >= 0,
            applies <= total <= start,
            f == fees.receive_fixed,
            start + f < i64::MAX,
            leaves(total as int, applies as int, *fees),
            total == applies || !leaves(total - 1, applies as int, *fees),
        decreases start - total,
    {
        total = total + 1;
    }
    proof {
        if total == applies {
            lemma_fee_facts(0, *fees);
            if total >= 1 {
                lemma_fee_facts((total - 1) as int, *fees);
            }
        }
        assert forall|t: i64| t < total implies !#[trigger] leaves(t as int, applies as int, *fees) by {
            lemma_left_after_fee_grows(t, (total - 1) as i64, *fees);
        }
    }
    (total, total - applies)
}

/// What the provider charges for a payout that sends `sent`: the rate on the
/// amount sent, rounded half to even, held at the cap when there is one.
pub open spec fn payout_charge_of(sent: i64, fees: RailFees) -> i64 {
    let fee = half_even(nonneg(sent) * fees.payout_bps, 10_000) as i64;
    if fees.payout_cap > 0 && fee > fees.payout_cap {
        fees.payout_cap
    } else {
        fee
    }
}

pub fn payout_charge(sent: i64, fees: &RailFees) -> (r: i64)
    ensures
        r == payout_charge_of(sent, *fees),
{
    let s: i64 = if sent > 0 {
        sent
    } else {
        0
    };
    proof {
        lemma_i64_product(s as int, fees.payout_bps as int);
    }
    let fee = round_half_even(s as i128 * fees.payout_bps as i128, 10_000);
    if fees.payout_cap > 0 && fee > fees.payout_cap {
        fees.payout_cap
    } else {
        fee
    }
}

proof fn lemma_charge_bounds(s: int, fees: RailFees)
    requires
        0 <= fees.payout_bps < 10_000,
        0 <= s <= i64::MAX,
    ensures
        0 <= payout_charge_of(s as i64, fees) <= s,
{
    let b = fees.payout_bps as int;
    assert(0 <= s * b <= s * 10_000) by (nonlinear_arith)
        requires
            0 <= s,
            0 <= b < 10_000,
    ;
    lemma_half_even_within(s * b, 10_000, s);
}

/// Whether sending `sent` plus its charge fits inside `amount`.
fn fits_claim(sent: i64, amount: i64, fees: &RailFees) -> (r: bool)
    requires
        0 <= fees.payout_bps < 10_000,
        0 <= sent,
    ensures
        r == (sent + payout_charge_of(sent, *fees) <= amount),
{
    proof {
        lemma_charge_bounds(sent as int, *fees);
    }
    sent as i128 + payout_charge(sent, fees) as i128 <= amount as i128
}

/// The fee deducted from a payout claim of `amount` so that what is sent plus
/// what the provider charges for sending it fits inside the claim: the sent
/// amount is the largest one (at least a centavo) that fits, searched from
/// the closed-form estimate, and the fee is the rest. Claims of a centavo or
/// less pay no fee.
pub fn payout_fee(amount: i64, fees: &RailFees) -> (r: i64)
    requires
        0 <= fees.payout_bps < 10_000,
    ensures
        nonneg(amount) <= 1 ==> r == 0,
        nonneg(amount) > 1 ==> {
            let sent = nonneg(amount) - r;
            &&& 1 <= sent <= nonneg(amount)
            &&& sent == 1 || sent + payout_charge_of(sent as i64, *fees) <= nonneg(amount)
            &&& 1 + payout_charge_of(1, *fees) <= nonneg(amount) ==> sent + payout_charge_of(
                sent as i64,
                *fees,
            ) <= nonneg(amount)
            &&& sent == nonneg(amount) || sent + 1 + payout_charge_of((sent + 1) as i64, *fees)
                > nonneg(amount)
        },
{
    let amount: i64 = if amount > 0 {
        amount
    } else {
        0
    };
    if amount <= 1 {
        return 0;
    }
    let mut sent = (amount as i128 * 10_000 / (10_000 + fees.payout_bps as i128)) as i64;
    proof {
        assert(amount * 10_000 / (10_000 + fees.payout_bps) <= amount) by (nonlinear_arith)
            requires
                amount >= 0,
                0 <= fees.payout_bps,
        ;
        assert(amount * 10_000 / (10_000 + fees.payout_bps) >= 0) by (nonlinear_arith)
            requires
                amount >= 0,
                0 <= fees.payout_bps,
        ;
    }
    if fees.payout_cap > 0 {
        let floor = amount - fees.payout_cap;
        if floor > sent {
            sent = floor;
        }
    }
    if sent < 1 {
        sent = 1;
    }
    if sent > amount {
        sent = amount;
    }
    while sent > 1 && !fits_claim(sent, amount, fees)
        invariant
            0 <= fees.payout_bps < 10_000,
            2 <= amount,
            1 <= sent <= amount,
        decreases sent,
    {
        sent = sent - 1;
    }
    while sent < amount && fits_claim(sent + 1, amount, fees)
        invariant
            0 <= fees.payout_bps < 10_000,
            2 <= amount,
            1 <= sent <= amount,
            sent == 1 || sent + payout_charge_of(sent, *fees) <= amount,
            1 + payout_charge_of(1, *fees) <= amount ==> sent + payout_charge_of(sent, *fees)
                <= amount,
        decreases amount - sent,
    {
        sent = sent + 1;
    }
    amount - sent
}

} // verus!
