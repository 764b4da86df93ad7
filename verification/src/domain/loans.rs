//! Pricing, caps and backing: what a loan may be, and what must stand behind it.

use vstd::prelude::*;
use crate::policy::{Band, PolicyParams};
use crate::text::str_eq;
use super::rounding::{div_toward_zero, lemma_i64_product, trunc_div};

verus! {

/// Stroops in one XLM.
pub const CENTAVOS_PER_XLM_UNIT: i64 = 10_000_000;

/// Seconds per schedule month: a fixed 30 days keeps every schedule
/// reproducible from the disbursement time and the installment number.
pub const MONTH_SECS: i64 = 2_592_000;

pub open spec fn band_covers(b: Band, score: i16) -> bool {
    b.min_score <= score <= b.max_score
}

/// The index of the first band from `i` on whose range holds the score.
pub open spec fn first_band(bands: Seq<Band>, score: i16, i: int) -> Option<int>
    decreases bands.len() - i,
{
    if i < 0 || i >= bands.len() {
        None
    } else if band_covers(bands[i], score) {
        Some(i)
    } else {
        first_band(bands, score, i + 1)
    }
}

pub proof fn lemma_first_band(bands: Seq<Band>, score: i16, i: int)
    requires
        0 <= i <= bands.len(),
    ensures
        match first_band(bands, score, i) {
            None => forall|j: int| i <= j < bands.len() ==> !band_covers(#[trigger] bands[j], score),
            Some(k) => i <= k < bands.len() && band_covers(bands[k], score) && forall|j: int|
                i <= j < k ==> !band_covers(#[trigger] bands[j], score),
        },
    decreases bands.len() - i,
{
    if i < bands.len() && !band_covers(bands[i], score) {
        lemma_first_band(bands, score, i + 1);
    }
}

/// `band_for`'s answer, read as the first covering band.
pub proof fn lemma_band_for_is_first(params: PolicyParams, score: i16, found: Option<Band>)
    requires
        found is None <==> forall|i: int|
            0 <= i < params.bands@.len() ==> !band_covers(#[trigger] params.bands@[i], score),
        found matches Some(b) ==> exists|i: int|
            0 <= i < params.bands@.len() && b == params.bands@[i] && band_covers(
                params.bands@[i],
                score,
            ) && forall|j: int| 0 <= j < i ==> !band_covers(#[trigger] params.bands@[j], score),
    ensures
        match first_band(params.bands@, score, 0) {
            None => found is None,
            Some(k) => found == Some(params.bands@[k]),
        },
{
    lemma_first_band(params.bands@, score, 0);
    if let Some(b) = found {
        let i = choose|i: int|
            0 <= i < params.bands@.len() && b == params.bands@[i] && band_covers(
                params.bands@[i],
                score,
            ) && forall|j: int| 0 <= j < i ==> !band_covers(#[trigger] params.bands@[j], score);
        if let Some(k) = first_band(params.bands@, score, 0) {
            if k < i {
                assert(!band_covers(params.bands@[k], score));
            } else if i < k {
                assert(!band_covers(params.bands@[i], score));
            }
        }
    }
}

/// The score band a borrower falls in: the first band whose range holds the
/// score, or none when the score is below (or outside) every band.
pub fn band_for(score: i16, params: &PolicyParams) -> (r: Option<&Band>)
    ensures
        r is None <==> forall|i: int|
            0 <= i < params.bands@.len() ==> !band_covers(#[trigger] params.bands@[i], score),
        r matches Some(b) ==> exists|i: int|
            0 <= i < params.bands@.len() && *b == params.bands@[i] && band_covers(
                params.bands@[i],
                score,
            ) && forall|j: int| 0 <= j < i ==> !band_covers(#[trigger] params.bands@[j], score),
{
    let n = params.bands.len();
    let mut i: usize = 0;
    while i < n
        invariant
            i <= n,
            n == params.bands@.len(),
            forall|j: int| 0 <= j < i ==> !band_covers(#[trigger] params.bands@[j], score),
        decreases n - i,
    {
        let b = &params.bands[i];
        if score >= b.min_score && score <= b.max_score {
            return Some(b);
        }
        i = i + 1;
    }
    None
}

/// Monthly price in basis points for a product, straight off the band.
pub fn rate_bps(product: &str, band: &Band) -> (r: i32)
    ensures
        r == if product@ == "guarantor"@ {
            band.guarantor_bps
        } else {
            band.secured_bps
        },
{
    if str_eq(product, "guarantor") {
        band.guarantor_bps
    } else {
        band.secured_bps
    }
}

/// `a * b`, held at the ends of the `i64` range instead of wrapping.
pub open spec fn saturating_product(a: int, b: int) -> i64 {
    if a * b > i64::MAX {
        i64::MAX
    } else if a * b < i64::MIN {
        i64::MIN
    } else {
        (a * b) as i64
    }
}

pub open spec fn cap_of(product: Seq<char>, band: Band, multiple: i64) -> i64 {
    if product == "guarantor"@ {
        saturating_product(band.cap as int, if multiple > 1 {
            multiple as int
        } else {
            1
        })
    } else {
        band.cap
    }
}

/// The hard cap for a product: the band cap, multiplied by the policy's
/// guarantor multiple (at least one) when guarantors carry the risk.
pub fn cap_for(product: &str, band: &Band, params: &PolicyParams) -> (r: i64)
    ensures
        r == cap_of(product@, *band, params.guarantor_cap_multiple),
{
    if str_eq(product, "guarantor") {
        let m: i64 = if params.guarantor_cap_multiple > 1 {
            params.guarantor_cap_multiple
        } else {
            1
        };
        proof {
            lemma_i64_product(band.cap as int, m as int);
        }
        let p = band.cap as i128 * m as i128;
        if p > i64::MAX as i128 {
            i64::MAX
        } else if p < i64::MIN as i128 {
            i64::MIN
        } else {
            p as i64
        }
    } else {
        band.cap
    }
}

pub open spec fn deposit_collateral(amount: i64, ltv_pct: i64) -> i64 {
    let d = if ltv_pct > 1 {
        ltv_pct as int
    } else {
        1
    };
    trunc_div(amount * 100 + d - 1, d) as i64
}

/// Deposit-backed: the deposit that must be frozen to borrow `amount` at the
/// given loan-to-value percent, rounded up so the collateral can only ever
/// be a centavo more than the exact figure, never less.
pub fn required_deposit_collateral(amount: i64, ltv_pct: i64) -> (r: i64)
    ensures
        r == deposit_collateral(amount, ltv_pct),
{
    let numer = amount as i128 * 100;
    let denom: i128 = if ltv_pct > 1 {
        ltv_pct as i128
    } else {
        1
    };
    div_toward_zero(numer + denom - 1, denom) as i64
}

pub open spec fn borrowable(available: i64, ltv_pct: i64) -> i64 {
    trunc_div(available * ltv_pct, 100) as i64
}

/// Deposit-backed: the most that can be borrowed against `available` centavos.
pub fn max_borrow_against_deposit(available: i64, ltv_pct: i64) -> (r: i64)
    ensures
        r == borrowable(available, ltv_pct),
{
    proof {
        lemma_i64_product(available as int, ltv_pct as int);
    }
    div_toward_zero(available as i128 * ltv_pct as i128, 100) as i64
}

/// The centavos of value that must stand behind `amount` at `min_pct` percent, rounded up.
pub open spec fn collateral_needed(amount: i64, min_pct: i64) -> int {
    trunc_div(amount * min_pct + 99, 100)
}

pub open spec fn collateral_stroops(amount: i64, min_pct: i64, centavos_per_xlm: i64) -> i64 {
    let d = if centavos_per_xlm > 1 {
        centavos_per_xlm as int
    } else {
        1
    };
    trunc_div(collateral_needed(amount, min_pct) * 10_000_000 + d - 1, d) as i64
}

/// XLM collateral: stroops that must be locked so the coins are worth at
/// least `min_pct` percent of the loan at the given rate. Rounded up at both
/// steps, so the requirement only ever rounds against the borrower.
pub fn required_collateral_stroops(amount: i64, min_pct: i64, centavos_per_xlm: i64) -> (r: i64)
    requires
        collateral_needed(amount, min_pct) * 10_000_000 + (if centavos_per_xlm > 1 {
            centavos_per_xlm as int
        } else {
            1
        }) <= i128::MAX,
        collateral_needed(amount, min_pct) * 10_000_000 > i128::MIN,
    ensures
        r == collateral_stroops(amount, min_pct, centavos_per_xlm),
{
    proof {
        lemma_i64_product(amount as int, min_pct as int);
    }
    let needed = div_toward_zero(amount as i128 * min_pct as i128 + 99, 100);
    let numer = needed * 10_000_000;
    let denom: i128 = if centavos_per_xlm > 1 {
        centavos_per_xlm as i128
    } else {
        1
    };
    div_toward_zero(numer + denom - 1, denom) as i64
}

pub open spec fn collateral_value(stroops: i64, centavos_per_xlm: i64) -> i64 {
    trunc_div(stroops * centavos_per_xlm, 10_000_000) as i64
}

/// What locked stroops are worth in centavos at the given rate, rounded toward zero.
pub fn collateral_value_centavos(stroops: i64, centavos_per_xlm: i64) -> (r: i64)
    ensures
        r == collateral_value(stroops, centavos_per_xlm),
{
    proof {
        lemma_i64_product(stroops as int, centavos_per_xlm as int);
    }
    div_toward_zero(stroops as i128 * centavos_per_xlm as i128, 10_000_000) as i64
}

pub open spec fn clamp_pct(p: i64) -> int {
    if p < 0 {
        0
    } else if p > 100 {
        100
    } else {
        p as int
    }
}

pub open spec fn borrower_cover(amount: i64, min_pct: i64) -> i64 {
    trunc_div(amount * clamp_pct(min_pct) + 99, 100) as i64
}

/// The centavos of a guarantor loan the borrower must carry themselves:
/// `min_pct` percent (held to 0..=100) of the principal, rounded up.
pub fn required_borrower_cover(amount: i64, min_pct: i64) -> (r: i64)
    ensures
        r == borrower_cover(amount, min_pct),
{
    let p: i64 = if min_pct < 0 {
        0
    } else if min_pct > 100 {
        100
    } else {
        min_pct
    };
    proof {
        assert(i64::MIN * 100 <= amount * p <= i64::MAX * 100) by (nonlinear_arith)
            requires
                i64::MIN <= amount <= i64::MAX,
                0 <= p <= 100,
        ;
    }
    div_toward_zero(amount as i128 * p as i128 + 99, 100) as i64
}

/// How a guarantor loan is backed once the borrower's two legs and the
/// guarantors' share are settled, in centavos of principal.
#[derive(Debug, PartialEq, Eq)]
pub struct CoverPlan {
    pub required: i64,
    pub deposit: i64,
    pub xlm: i64,
    pub total: i64,
    /// What the guarantors must pledge between them: the remainder.
    pub guarantor_gap: i64,
}

#[derive(Debug, PartialEq, Eq)]
pub enum CoverError {
    /// The two legs together fall short of the policy floor.
    BelowFloor { required: i64, offered: i64 },
    /// Negative legs, or a total past the whole principal.
    Invalid,
    /// Fully self-backed, so there is nothing for a guarantor to do.
    NoGapLeft,
}

/// Settles the borrower's cover against the floor and works out what is
/// left for the guarantors.
pub fn plan_cover(amount: i64, deposit_cover: i64, xlm_cover: i64, min_pct: i64) -> (r: Result<
    CoverPlan,
    CoverError,
>)
    ensures
        (deposit_cover < 0 || xlm_cover < 0 || deposit_cover + xlm_cover > i64::MAX
            || deposit_cover + xlm_cover > amount) <==> r == Err::<CoverPlan, CoverError>(
            CoverError::Invalid,
        ),
        r matches Err(CoverError::BelowFloor { required, offered }) ==> required == borrower_cover(
            amount,
            min_pct,
        ) && offered == deposit_cover + xlm_cover,
        !(deposit_cover < 0 || xlm_cover < 0 || deposit_cover + xlm_cover > amount) ==> {
            &&& (deposit_cover + xlm_cover < borrower_cover(amount, min_pct) <==> r is Err && r->Err_0 is BelowFloor)
            &&& (deposit_cover + xlm_cover >= borrower_cover(amount, min_pct) && amount
                - deposit_cover - xlm_cover <= 0) <==> r == Err::<CoverPlan, CoverError>(
                CoverError::NoGapLeft,
            )
            &&& r is Ok <==> (deposit_cover + xlm_cover >= borrower_cover(amount, min_pct) && amount
                - deposit_cover - xlm_cover > 0)
        },
        r matches Ok(plan) ==> plan == (CoverPlan {
            required: borrower_cover(amount, min_pct),
            deposit: deposit_cover,
            xlm: xlm_cover,
            total: (deposit_cover + xlm_cover) as i64,
            guarantor_gap: (amount - deposit_cover - xlm_cover) as i64,
        }),
{
    if deposit_cover < 0 || xlm_cover < 0 {
        return Err(CoverError::Invalid);
    }
    let wide = deposit_cover as i128 + xlm_cover as i128;
    if wide > i64::MAX as i128 {
        return Err(CoverError::Invalid);
    }
    let total = wide as i64;
    if total > amount {
        return Err(CoverError::Invalid);
    }
    let required = required_borrower_cover(amount, min_pct);
    if total < required {
        return Err(CoverError::BelowFloor { required, offered: total });
    }
    let guarantor_gap = amount - total;
    if guarantor_gap <= 0 {
        return Err(CoverError::NoGapLeft);
    }
    Ok(CoverPlan { required, deposit: deposit_cover, xlm: xlm_cover, total, guarantor_gap })
}

} // verus!
