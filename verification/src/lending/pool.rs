//! The pool page: how much is deposited and how much of it is out on loans,
//! the member's own funds by kind, and a worked example of the interest split.

use vstd::prelude::*;

use crate::domain::rounding::{div_toward_zero, lemma_trunc_div_bounds, trunc_div};
use crate::domain::interest::{InterestParts, risk_band_of, split_interest_parts, split_parts};
use crate::domain::limits::{DepositLimitsFor, allowance_of, deposit_allowance};
use crate::policy::{GuarantorTier, InterestSplit, PolicyParams};
use crate::pricing::Priced;
use crate::text::str_eq;

verus! {

/// A member's deposit headroom right now.
#[derive(Clone, Copy, Debug, PartialEq, Eq)]
pub struct DepositStatus {
    pub limits: DepositLimitsFor,
    /// Gross deposits in the last 24 hours and 30 days, including deposits
    /// started and not yet finished.
    pub used_24h: i64,
    pub used_30d: i64,
    /// The whole deposit balance, plus deposits started and not yet finished.
    pub balance: i64,
    /// The largest deposit that may be started now.
    pub allowance: i64,
}

/// Deposits started and not yet finished count against the limits as if they
/// had landed, so two checkouts opened at once cannot both fit under one.
pub fn deposit_status(limits: DepositLimitsFor, credited_24h: i64, credited_30d: i64, pending: i64, held: i64) -> (r: DepositStatus)
    requires
        i64::MIN <= credited_24h + pending <= i64::MAX,
        i64::MIN <= credited_30d + pending <= i64::MAX,
        i64::MIN <= held + pending <= i64::MAX,
        i64::MIN <= limits.daily - (credited_24h + pending) <= i64::MAX,
        i64::MIN <= limits.monthly - (credited_30d + pending) <= i64::MAX,
        i64::MIN <= limits.max_balance - (held + pending) <= i64::MAX,
    ensures
        r.limits == limits,
        r.used_24h == credited_24h + pending,
        r.used_30d == credited_30d + pending,
        r.balance == held + pending,
        r.allowance == allowance_of(limits, r.used_24h, r.used_30d, r.balance),
{
    let used_24h = credited_24h + pending;
    let used_30d = credited_30d + pending;
    let balance = held + pending;
    let allowance = deposit_allowance(limits, used_24h, used_30d, balance);
    DepositStatus { limits, used_24h, used_30d, balance, allowance }
}

/// All interest booked so far, and where it went.
#[derive(Clone, Copy, Debug, PartialEq, Eq)]
pub struct InterestCollected {
    pub total: i64,
    pub payments: i64,
    pub parts: InterestParts,
}

/// The pool as a whole.
#[derive(Clone, Copy, Debug, PartialEq, Eq)]
pub struct PoolStats {
    pub total_deposits: i64,
    pub cash_available: i64,
    pub pool_funds: i64,
    pub proceeds_waiting: i64,
    pub out_on_loans: i64,
    pub active_loans: i64,
    pub utilization_pct: i64,
    pub utilization_bps: i64,
    pub interest: InterestCollected,
}

/// The share of the working pool (what is out on loans plus the cash free
/// to lend) that is out on loans, in basis points rounded half up; nothing
/// when there is no working pool.
pub open spec fn utilization_of(out_on_loans: int, cash_available: int) -> int {
    let working = out_on_loans + cash_available;
    if working > 0 {
        trunc_div(out_on_loans * 10_000 + working / 2, working)
    } else {
        0
    }
}

/// The pool's figures. The cash free to lend is the free cash less the
/// proceeds waiting to be withdrawn and the funds the pool keeps for itself.
pub fn pool_stats(
    total_deposits: i64,
    free_cash: i64,
    proceeds_waiting: i64,
    pool_funds: i64,
    out_on_loans: i64,
    active_loans: i64,
    interest: InterestCollected,
) -> (r: PoolStats)
    requires
        i64::MIN <= free_cash - proceeds_waiting - pool_funds <= i64::MAX,
        i64::MIN <= free_cash - proceeds_waiting <= i64::MAX,
        i64::MIN <= out_on_loans + (free_cash - proceeds_waiting - pool_funds) <= i64::MAX,
        i64::MIN <= out_on_loans * 10_000 + (out_on_loans + (free_cash - proceeds_waiting
            - pool_funds)) / 2 <= i64::MAX,
        i64::MIN <= out_on_loans * 10_000 <= i64::MAX,
        utilization_of(out_on_loans as int, free_cash - proceeds_waiting - pool_funds) + 50
            <= i64::MAX,
    ensures
        r.total_deposits == total_deposits,
        r.cash_available == free_cash - proceeds_waiting - pool_funds,
        r.pool_funds == pool_funds,
        r.proceeds_waiting == proceeds_waiting,
        r.out_on_loans == out_on_loans,
        r.active_loans == active_loans,
        r.utilization_bps == utilization_of(out_on_loans as int, r.cash_available as int),
        r.utilization_pct == trunc_div(r.utilization_bps + 50, 100),
        r.interest == interest,
{
    let cash_available = free_cash - proceeds_waiting - pool_funds;
    let working = out_on_loans + cash_available;
    let utilization_bps: i64 = if working > 0 {
        proof {
            lemma_trunc_div_bounds(out_on_loans * 10_000 + working / 2, working as int);
        }
        div_toward_zero((out_on_loans * 10_000 + working / 2) as i128, working as i128) as i64
    } else {
        0
    };
    proof {
        lemma_trunc_div_bounds(utilization_bps + 50, 100);
    }
    let utilization_pct = div_toward_zero((utilization_bps + 50) as i128, 100) as i64;
    PoolStats {
        total_deposits,
        cash_available,
        pool_funds,
        proceeds_waiting,
        out_on_loans,
        active_loans,
        utilization_pct,
        utilization_bps,
        interest,
    }
}

/// What a member has earned in interest.
#[derive(Clone, Copy, Debug, PartialEq, Eq)]
pub struct MyInterest {
    pub total: i64,
    pub as_depositor: i64,
    pub as_guarantor: i64,
    pub payments: i64,
}

/// A member's own funds, by kind.
#[derive(Clone, Copy, Debug, PartialEq, Eq)]
pub struct MyFunds {
    pub available: i64,
    pub lent: i64,
    pub collateral: i64,
    pub pledged: i64,
    pub proceeds: i64,
    pub score: i16,
    pub interest_earned: MyInterest,
    pub deposit_limits: Option<DepositStatus>,
}

/// A member's total under one badge; the last total listed for it counts,
/// and a badge not listed holds nothing.
pub open spec fn badge_total(totals: Seq<(String, i64)>, badge: Seq<char>) -> i64
    decreases totals.len(),
{
    if totals.len() == 0 {
        0
    } else if totals.last().0@ == badge {
        totals.last().1
    } else {
        badge_total(totals.drop_last(), badge)
    }
}

/// A member's funds from their per-badge totals. With no score on record the
/// member is at the opening score of 50.
pub fn my_funds(
    badge_totals: &[(String, i64)],
    proceeds: i64,
    score: Option<i16>,
    as_depositor: i64,
    as_guarantor: i64,
    payments: i64,
    deposit_limits: Option<DepositStatus>,
) -> (r: MyFunds)
    requires
        i64::MIN <= as_depositor + as_guarantor <= i64::MAX,
    ensures
        r.available == badge_total(badge_totals@, "available"@),
        r.lent == badge_total(badge_totals@, "lent"@),
        r.collateral == badge_total(badge_totals@, "collateral"@),
        r.pledged == badge_total(badge_totals@, "pledged"@),
        r.proceeds == proceeds,
        r.score == (match score {
            Some(s) => s,
            None => 50,
        }),
        r.interest_earned == (MyInterest {
            total: (as_depositor + as_guarantor) as i64,
            as_depositor,
            as_guarantor,
            payments,
        }),
        r.deposit_limits == deposit_limits,
{
    let n = badge_totals.len();
    let mut available: i64 = 0;
    let mut lent: i64 = 0;
    let mut collateral: i64 = 0;
    let mut pledged: i64 = 0;
    let mut i: usize = 0;
    assert(badge_totals@.take(0) =~= Seq::<(String, i64)>::empty());
    while i < n
        invariant
            i <= n,
            n == badge_totals@.len(),
            available == badge_total(badge_totals@.take(i as int), "available"@),
            lent == badge_total(badge_totals@.take(i as int), "lent"@),
            collateral == badge_total(badge_totals@.take(i as int), "collateral"@),
            pledged == badge_total(badge_totals@.take(i as int), "pledged"@),
        decreases n - i,
    {
        let (badge, amount) = &badge_totals[i];
        proof {
            reveal_strlit("available");
            reveal_strlit("lent");
            reveal_strlit("collateral");
            reveal_strlit("pledged");
            assert("available"@[0] != "lent"@[0] && "available"@[0] != "collateral"@[0]
                && "available"@[0] != "pledged"@[0] && "lent"@[0] != "collateral"@[0]
                && "lent"@[0] != "pledged"@[0] && "collateral"@[0] != "pledged"@[0]);
            assert(badge_totals@.take(i + 1).drop_last() =~= badge_totals@.take(i as int));
            assert(badge_totals@.take(i + 1).last() == badge_totals@[i as int]);
        }
        if str_eq(badge.as_str(), "available") {
            available = *amount;
        } else if str_eq(badge.as_str(), "lent") {
            lent = *amount;
        } else if str_eq(badge.as_str(), "collateral") {
            collateral = *amount;
        } else if str_eq(badge.as_str(), "pledged") {
            pledged = *amount;
        }
        i = i + 1;
    }
    assert(badge_totals@.take(n as int) =~= badge_totals@);
    let score = match score {
        Some(s) => s,
        None => 50,
    };
    MyFunds {
        available,
        lent,
        collateral,
        pledged,
        proceeds,
        score,
        interest_earned: MyInterest {
            total: as_depositor + as_guarantor,
            as_depositor,
            as_guarantor,
            payments,
        },
        deposit_limits,
    }
}

/// The interest the worked example splits: twenty pesos.
pub const EXAMPLE_INTEREST: i64 = 2_000;

/// One guarantor tier in the worked example.
#[derive(Clone, Copy, Debug, PartialEq, Eq)]
pub struct TierExample {
    pub min_score: i16,
    pub max_score: i16,
    pub share: i64,
    pub parts: InterestParts,
}

/// The worked example of the interest split: with no guarantor, and with one
/// guarantor at each tier.
#[derive(Clone, Debug)]
pub struct SplitExample {
    pub interest: i64,
    pub no_guarantor: InterestParts,
    pub tiers: Vec<TierExample>,
}

/// The split's arithmetic stays within centavo range for the example.
pub open spec fn example_fits(split: InterestSplit) -> bool {
    risk_band_of(EXAMPLE_INTEREST as int, split) <= i64::MAX
}

pub fn split_example(params: &PolicyParams) -> (r: SplitExample)
    requires
        example_fits(params.interest_split),
    ensures
        r.interest == EXAMPLE_INTEREST,
        r.no_guarantor == split_parts(EXAMPLE_INTEREST, params.interest_split, None),
        r.tiers@.len() == params.interest_split.guarantor_tiers@.len(),
        forall|k: int|
            0 <= k < r.tiers@.len() ==> {
                let t = params.interest_split.guarantor_tiers@[k];
                #[trigger] r.tiers@[k] == TierExample {
                    min_score: t.min_score,
                    max_score: t.max_score,
                    share: t.share,
                    parts: split_parts(EXAMPLE_INTEREST, params.interest_split, Some(t.share)),
                }
            },
{
    let split = &params.interest_split;
    let no_guarantor = split_interest_parts(EXAMPLE_INTEREST, split, None);
    let n = split.guarantor_tiers.len();
    let mut tiers: Vec<TierExample> = Vec::new();
    let mut i: usize = 0;
    while i < n
        invariant
            i <= n,
            n == split.guarantor_tiers@.len(),
            split == &params.interest_split,
            example_fits(*split),
            tiers@.len() == i,
            forall|k: int|
                0 <= k < i ==> {
                    let t = split.guarantor_tiers@[k];
                    #[trigger] tiers@[k] == TierExample {
                        min_score: t.min_score,
                        max_score: t.max_score,
                        share: t.share,
                        parts: split_parts(EXAMPLE_INTEREST, *split, Some(t.share)),
                    }
                },
        decreases n - i,
    {
        let t = split.guarantor_tiers[i];
        let parts = split_interest_parts(EXAMPLE_INTEREST, split, Some(t.share));
        tiers.push(TierExample { min_score: t.min_score, max_score: t.max_score, share: t.share, parts });
        i = i + 1;
    }
    SplitExample { interest: EXAMPLE_INTEREST, no_guarantor, tiers }
}

/// The rulebook as a member sees it, with the live XLM price and which
/// payment rails are ready.
#[derive(Clone, Debug)]
pub struct Params {
    pub policy: PolicyParams,
    pub fx_centavos_per_xlm: i64,
    pub fx: Priced,
    pub collateral_contract: Option<String>,
    pub paypal_ready: bool,
    pub stripe_ready: bool,
    pub split_example: SplitExample,
}

/// The whole pool page.
#[derive(Clone, Debug)]
pub struct PoolResponse {
    pub pool: PoolStats,
    pub me: MyFunds,
    pub params: Params,
}

} // verus!
