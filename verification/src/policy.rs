//! The versioned rulebook: every number a lending decision is made against.
//! Loading the active version is the application's business; this module
//! only says what a rulebook is.

use vstd::prelude::*;

use crate::Refusal;
use crate::domain::{check_deposit_limits, check_interest_split};
use crate::domain::interest::{fixed_shares_nonneg, interest_split_verdict};
use crate::domain::limits::deposit_limits_verdict;

verus! {

/// One pricing band of the credit score.
#[derive(Clone, Copy, Debug, PartialEq, Eq)]
pub struct Band {
    pub min_score: i16,
    pub max_score: i16,
    /// Base borrowing cap for the band, centavos.
    pub cap: i64,
    /// Monthly rate for the fully backed products (deposit_backed, xlm_collateral).
    pub secured_bps: i32,
    /// Monthly rate for guarantor loans.
    pub guarantor_bps: i32,
}

#[derive(Clone, Copy, Debug, PartialEq, Eq)]
pub struct TermRange {
    pub min: i16,
    pub max: i16,
}

/// One row of the score-tier to guarantor-share table.
#[derive(Clone, Copy, Debug, PartialEq, Eq)]
pub struct GuarantorTier {
    pub min_score: i16,
    pub max_score: i16,
    /// Percent of the whole interest payment, taken out of the risk band.
    pub share: i64,
}

/// Where a peso of collected interest lands, in percent of the interest.
#[derive(Clone, Debug, PartialEq, Eq)]
pub struct InterestSplit {
    pub platform: i64,
    pub reserve: i64,
    pub depositors: i64,
    pub risk_band: i64,
    /// Hard ceiling on any tier's share; must not exceed `risk_band`.
    pub guarantor_cap: i64,
    /// Contiguous, ascending by score.
    pub guarantor_tiers: Vec<GuarantorTier>,
}

/// One row of the deposit-limit table, in whole centavos.
#[derive(Clone, Copy, Debug, PartialEq, Eq)]
pub struct DepositLimitTier {
    pub min_score: i16,
    pub max_score: i16,
    /// The largest single deposit.
    pub per_deposit: i64,
    /// Gross deposits in any rolling 24 hours.
    pub daily: i64,
    /// Gross deposits in any rolling 30 days.
    pub monthly: i64,
    /// The most a member's deposit balance may reach through deposits.
    pub max_balance: i64,
}

#[derive(Clone, Debug, PartialEq, Eq)]
pub struct DepositLimits {
    /// Contiguous, ascending by score.
    pub tiers: Vec<DepositLimitTier>,
    /// A member below the lowest tier gets this percent of its limits.
    pub below_floor_pct: i64,
}

/// What one payment rail charges, in and out.
#[derive(Clone, Copy, Debug, PartialEq, Eq)]
pub struct RailFees {
    /// Percentage kept on money received, in basis points.
    pub receive_bps: i64,
    /// Fixed fee on money received, centavos.
    pub receive_fixed: i64,
    /// Percentage charged on what a payout sends, in basis points.
    pub payout_bps: i64,
    /// Ceiling on the payout charge, centavos; zero means no ceiling.
    pub payout_cap: i64,
}

#[derive(Clone, Copy, Debug, PartialEq, Eq)]
pub struct PaymentFees {
    pub paypal: RailFees,
    pub stripe: RailFees,
}

impl PaymentFees {
    /// The fee table of the rail a payment moved on: Stripe's for `stripe`,
    /// PayPal's for anything else.
    pub fn for_rail(&self, rail: &str) -> (r: &RailFees)
        ensures
            *r == (if rail@ == "stripe"@ {
                self.stripe
            } else {
                self.paypal
            }),
    {
        if crate::text::str_eq(rail, "stripe") {
            &self.stripe
        } else {
            &self.paypal
        }
    }
}

#[derive(Clone, Debug, PartialEq, Eq)]
pub struct PolicyParams {
    pub bands: Vec<Band>,
    pub deposit_ltv_pct: i64,
    pub xlm_min_collateral_pct: i64,
    pub xlm_liquidation_pct: i64,
    pub guarantor_cap_multiple: i64,
    pub guarantors_max: i64,
    /// The share of a guarantor loan's principal the borrower must carry.
    pub borrower_cover_min_pct: i64,
    pub term_months: TermRange,
    pub min_deposit: i64,
    pub min_loan: i64,
    pub interest_split: InterestSplit,
    pub deposit_limits: DepositLimits,
    pub payment_fees: PaymentFees,
}

/// The active rulebook and the id every loan born under it is pinned to.
#[derive(Clone, Debug, PartialEq, Eq)]
pub struct Policy {
    pub id: i64,
    pub params: PolicyParams,
}

/// The answer whenever the rulebook cannot be trusted.
pub open spec fn rules_unavailable() -> Refusal {
    Refusal { status: 500, message: "Unable to load lending rules" }
}

/// Admits the active rulebook, as read: a missing one, or one whose interest
/// split or deposit-limit table is inconsistent, is refused rather than
/// guessed at; money rules are never defaulted.
pub fn admit_policy(row: Option<(i64, PolicyParams)>) -> (r: Result<Policy, Refusal>)
    requires
        row matches Some((_, p)) ==> (fixed_shares_nonneg(p.interest_split) ==> p.interest_split.platform
            + p.interest_split.reserve + p.interest_split.depositors + p.interest_split.risk_band <= i64::MAX),
    ensures
        match row {
            None => r == Err::<Policy, Refusal>(Refusal {
                status: 500,
                message: "No active lending policy — run migrations",
            }),
            Some((id, params)) => if interest_split_verdict(params) is Err
                || deposit_limits_verdict(params.deposit_limits) is Err {
                r == Err::<Policy, Refusal>(rules_unavailable())
            } else {
                r == Ok::<Policy, Refusal>(Policy { id, params })
            },
        },
{
    let (id, params) = match row {
        None => return Err(Refusal { status: 500, message: "No active lending policy — run migrations" }),
        Some(x) => x,
    };
    if check_interest_split(&params).is_err() {
        return Err(Refusal { status: 500, message: "Unable to load lending rules" });
    }
    if check_deposit_limits(&params).is_err() {
        return Err(Refusal { status: 500, message: "Unable to load lending rules" });
    }
    Ok(Policy { id, params })
}

/// The newest XLM/PHP rate on record and when it was filed; none on record
/// is a fault of the deployment.
pub fn recorded_fx(row: Option<(i64, i64)>) -> (r: Result<(i64, i64), Refusal>)
    ensures
        r == (match row {
            Some(x) => Ok(x),
            None => Err(Refusal { status: 500, message: "No XLM/PHP rate configured" }),
        }),
{
    match row {
        Some(x) => Ok(x),
        None => Err(Refusal { status: 500, message: "No XLM/PHP rate configured" }),
    }
}

} // verus!
