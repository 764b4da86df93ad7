//! AML deposit limits: how much a member may pay in, by credit score.

use vstd::prelude::*;
use crate::policy::{DepositLimitTier, DepositLimits, PolicyParams};
use super::rounding::{div_toward_zero, lemma_i64_product, trunc_div};

verus! {

/// A member's effective deposit limits, in centavos.
#[derive(Clone, Copy, Debug, PartialEq, Eq)]
pub struct DepositLimitsFor {
    pub per_deposit: i64,
    pub daily: i64,
    pub monthly: i64,
    pub max_balance: i64,
}

/// The first problem with a tier at or after index `i`, tier by tier.
pub open spec fn deposit_tier_problem(tiers: Seq<DepositLimitTier>, i: int) -> Option<&'static str>
    decreases tiers.len() - i,
{
    if i < 0 || i >= tiers.len() {
        None
    } else {
        let t = tiers[i];
        if t.min_score > t.max_score {
            Some("deposit tier min_score above max_score")
        } else if t.per_deposit <= 0 || t.daily <= 0 || t.monthly <= 0 || t.max_balance <= 0 {
            Some("deposit limits must be positive")
        } else if t.per_deposit > t.daily || t.daily > t.monthly || t.per_deposit > t.max_balance {
            Some(
                "deposit limits must satisfy per_deposit <= daily <= monthly and per_deposit <= max_balance",
            )
        } else {
            deposit_tier_problem(tiers, i + 1)
        }
    }
}

/// The first problem between neighbouring tiers `i - 1` and `i`, from `i` on.
pub open spec fn deposit_window_problem(tiers: Seq<DepositLimitTier>, i: int) -> Option<
    &'static str,
>
    decreases tiers.len() - i,
{
    if i < 1 || i >= tiers.len() {
        None
    } else {
        let a = tiers[i - 1];
        let b = tiers[i];
        if b.min_score != a.max_score + 1 {
            Some("deposit tiers must be contiguous and ascending")
        } else if b.per_deposit < a.per_deposit || b.daily < a.daily || b.monthly < a.monthly
            || b.max_balance < a.max_balance {
            Some("deposit limits must not fall as score rises")
        } else {
            deposit_window_problem(tiers, i + 1)
        }
    }
}

/// What the deposit-limit table check says, in the order it checks.
pub open spec fn deposit_limits_verdict(limits: DepositLimits) -> Result<(), &'static str> {
    let tiers = limits.tiers@;
    if tiers.len() == 0 {
        Err("no deposit limit tiers")
    } else if !(1 <= limits.below_floor_pct <= 100) {
        Err("below_floor_pct must be 1..=100")
    } else if tiers[0].min_score < 0 || tiers.last().max_score < 150 {
        Err("deposit tiers must reach score 150")
    } else if deposit_tier_problem(tiers, 0) is Some {
        Err(deposit_tier_problem(tiers, 0)->0)
    } else if deposit_window_problem(tiers, 1) is Some {
        Err(deposit_window_problem(tiers, 1)->0)
    } else {
        Ok(())
    }
}

/// A deposit tier is sound on its own: a non-empty score range, every limit
/// positive, `per_deposit <= daily <= monthly` and `per_deposit <= max_balance`.
pub open spec fn deposit_row_sound(t: DepositLimitTier) -> bool {
    &&& t.min_score <= t.max_score
    &&& t.per_deposit > 0 && t.daily > 0 && t.monthly > 0 && t.max_balance > 0
    &&& t.per_deposit <= t.daily <= t.monthly
    &&& t.per_deposit <= t.max_balance
}

/// Two neighbouring deposit tiers are sound: the second starts right after
/// the first ends, and none of its four limits is lower.
pub open spec fn deposit_step_sound(a: DepositLimitTier, b: DepositLimitTier) -> bool {
    &&& b.min_score == a.max_score + 1
    &&& b.per_deposit >= a.per_deposit && b.daily >= a.daily
    &&& b.monthly >= a.monthly && b.max_balance >= a.max_balance
}

/// The deposit-limit table, stated in one piece: at least one tier, a
/// below-floor percent in 1..=100, tiers running from a score of zero or more
/// up to at least 150, every row sound and every neighbour step sound.
pub open spec fn deposit_limits_sound(limits: DepositLimits) -> bool {
    let tiers = limits.tiers@;
    &&& tiers.len() > 0
    &&& 1 <= limits.below_floor_pct <= 100
    &&& tiers[0].min_score >= 0 && tiers.last().max_score >= 150
    &&& forall|i: int| 0 <= i < tiers.len() ==> deposit_row_sound(#[trigger] tiers[i])
    &&& forall|i: int| 1 <= i < tiers.len() ==> deposit_step_sound(tiers[i - 1], #[trigger] tiers[i])
}

/// The row scan finds no problem from `i` on exactly when every row from `i` on is sound.
pub proof fn lemma_deposit_tier_none(tiers: Seq<DepositLimitTier>, i: int)
    requires
        0 <= i <= tiers.len(),
    ensures
        deposit_tier_problem(tiers, i) is None <==> forall|j: int|
            i <= j < tiers.len() ==> deposit_row_sound(#[trigger] tiers[j]),
    decreases tiers.len() - i,
{
    if i < tiers.len() {
        lemma_deposit_tier_none(tiers, i + 1);
    }
}

/// The neighbour scan finds no problem from `i` on exactly when every step from `i` on is sound.
pub proof fn lemma_deposit_window_none(tiers: Seq<DepositLimitTier>, i: int)
    requires
        1 <= i,
    ensures
        deposit_window_problem(tiers, i) is None <==> forall|j: int|
            i <= j < tiers.len() ==> deposit_step_sound(tiers[j - 1], #[trigger] tiers[j]),
    decreases tiers.len() - i,
{
    if i < tiers.len() {
        lemma_deposit_window_none(tiers, i + 1);
    }
}

/// The deposit-limit check passes exactly when the table is sound as a whole.
pub proof fn law_deposit_limits_closed_form(limits: DepositLimits)
    ensures
        deposit_limits_verdict(limits) is Ok <==> deposit_limits_sound(limits),
{
    lemma_deposit_tier_none(limits.tiers@, 0);
    lemma_deposit_window_none(limits.tiers@, 1);
}

/// The deposit-limit table is internally consistent: at least one tier,
/// contiguous and ascending by score up to 150, every limit positive,
/// `per_deposit <= daily <= monthly` and `per_deposit <= max_balance` within a
/// tier, no limit falling as score rises, and a below-floor percent in 1..=100.
pub fn check_deposit_limits(params: &PolicyParams) -> (r: Result<(), &'static str>)
    ensures
        r == deposit_limits_verdict(params.deposit_limits),
        r is Ok <==> deposit_limits_sound(params.deposit_limits),
{
    proof {
        law_deposit_limits_closed_form(params.deposit_limits);
    }
    let limits = &params.deposit_limits;
    let n = limits.tiers.len();
    if n == 0 {
        return Err("no deposit limit tiers");
    }
    if !(1 <= limits.below_floor_pct && limits.below_floor_pct <= 100) {
        return Err("below_floor_pct must be 1..=100");
    }
    if limits.tiers[0].min_score < 0 || limits.tiers[n - 1].max_score < 150 {
        return Err("deposit tiers must reach score 150");
    }
    let ghost tiers = limits.tiers@;
    let mut k: usize = 0;
    while k < n
        invariant
            k <= n,
            n == tiers.len(),
            n > 0,
            tiers == limits.tiers@,
            limits == &params.deposit_limits,
            1 <= limits.below_floor_pct <= 100,
            !(tiers[0].min_score < 0 || tiers.last().max_score < 150),
            deposit_tier_problem(tiers, 0) == deposit_tier_problem(tiers, k as int),
        decreases n - k,
    {
        let t = &limits.tiers[k];
        if t.min_score > t.max_score {
            return Err("deposit tier min_score above max_score");
        }
        if t.per_deposit <= 0 || t.daily <= 0 || t.monthly <= 0 || t.max_balance <= 0 {
            return Err("deposit limits must be positive");
        }
        if t.per_deposit > t.daily || t.daily > t.monthly || t.per_deposit > t.max_balance {
            return Err(
                "deposit limits must satisfy per_deposit <= daily <= monthly and per_deposit <= max_balance",
            );
        }
        k = k + 1;
    }
    let mut w: usize = 1;
    while w < n
        invariant
            1 <= w <= n,
            n == tiers.len(),
            tiers == limits.tiers@,
            limits == &params.deposit_limits,
            1 <= limits.below_floor_pct <= 100,
            !(tiers[0].min_score < 0 || tiers.last().max_score < 150),
            deposit_tier_problem(tiers, 0) is None,
            deposit_window_problem(tiers, 1) == deposit_window_problem(tiers, w as int),
        decreases n - w,
    {
        let a = &limits.tiers[w - 1];
        let b = &limits.tiers[w];
        if b.min_score as i32 != a.max_score as i32 + 1 {
            return Err("deposit tiers must be contiguous and ascending");
        }
        if b.per_deposit < a.per_deposit || b.daily < a.daily || b.monthly < a.monthly
            || b.max_balance < a.max_balance {
            return Err("deposit limits must not fall as score rises");
        }
        w = w + 1;
    }
    Ok(())
}

pub open spec fn limits_of(t: DepositLimitTier) -> DepositLimitsFor {
    DepositLimitsFor {
        per_deposit: t.per_deposit,
        daily: t.daily,
        monthly: t.monthly,
        max_balance: t.max_balance,
    }
}

pub open spec fn scaled_limit(v: i64, pct: i64) -> i64 {
    trunc_div(v * pct, 100) as i64
}

pub open spec fn tier_covers(t: DepositLimitTier, score: i16) -> bool {
    t.min_score <= score <= t.max_score
}

/// Index of the first tier at or after `i` that holds the score, if any.
pub open spec fn first_tier_from(tiers: Seq<DepositLimitTier>, score: i16, i: int) -> Option<int>
    decreases tiers.len() - i,
{
    if i < 0 || i >= tiers.len() {
        None
    } else if tier_covers(tiers[i], score) {
        Some(i)
    } else {
        first_tier_from(tiers, score, i + 1)
    }
}

/// The limits for a score: the first tier holding it; below the lowest tier,
/// `below_floor_pct` percent of the lowest tier's limits rounded toward zero;
/// otherwise the highest tier's; nothing at all for an empty table.
pub open spec fn limits_for_score(score: i16, limits: DepositLimits) -> DepositLimitsFor {
    let tiers = limits.tiers@;
    if first_tier_from(tiers, score, 0) is Some {
        limits_of(tiers[first_tier_from(tiers, score, 0)->0])
    } else if tiers.len() > 0 && score < tiers[0].min_score {
        let f = tiers[0];
        let p = limits.below_floor_pct;
        DepositLimitsFor {
            per_deposit: scaled_limit(f.per_deposit, p),
            daily: scaled_limit(f.daily, p),
            monthly: scaled_limit(f.monthly, p),
            max_balance: scaled_limit(f.max_balance, p),
        }
    } else if tiers.len() > 0 {
        limits_of(tiers.last())
    } else {
        DepositLimitsFor { per_deposit: 0, daily: 0, monthly: 0, max_balance: 0 }
    }
}

fn scale_limit(v: i64, pct: i64) -> (r: i64)
    ensures
        r == scaled_limit(v, pct),
{
    proof {
        lemma_i64_product(v as int, pct as int);
    }
    div_toward_zero(v as i128 * pct as i128, 100) as i64
}

/// A member's deposit limits for a credit score.
pub fn deposit_limits_for(score: i16, params: &PolicyParams) -> (r: DepositLimitsFor)
    ensures
        r == limits_for_score(score, params.deposit_limits),
{
    let limits = &params.deposit_limits;
    let ghost tiers = limits.tiers@;
    let n = limits.tiers.len();
    let mut i: usize = 0;
    while i < n
        invariant
            i <= n,
            n == tiers.len(),
            tiers == limits.tiers@,
            forall|j: int| 0 <= j < i ==> !tier_covers(#[trigger] tiers[j], score),
            first_tier_from(tiers, score, 0) == first_tier_from(tiers, score, i as int),
            *limits == params.deposit_limits,
        decreases n - i,
    {
        let t = &limits.tiers[i];
        if score >= t.min_score && score <= t.max_score {
            let r = DepositLimitsFor {
                per_deposit: t.per_deposit,
                daily: t.daily,
                monthly: t.monthly,
                max_balance: t.max_balance,
            };
            return r;
        }
        i = i + 1;
    }
    if n > 0 && score < limits.tiers[0].min_score {
        let f = &limits.tiers[0];
        let p = limits.below_floor_pct;
        return DepositLimitsFor {
            per_deposit: scale_limit(f.per_deposit, p),
            daily: scale_limit(f.daily, p),
            monthly: scale_limit(f.monthly, p),
            max_balance: scale_limit(f.max_balance, p),
        };
    }
    if n > 0 {
        let t = &limits.tiers[n - 1];
        return DepositLimitsFor {
            per_deposit: t.per_deposit,
            daily: t.daily,
            monthly: t.monthly,
            max_balance: t.max_balance,
        };
    }
    DepositLimitsFor { per_deposit: 0, daily: 0, monthly: 0, max_balance: 0 }
}

pub open spec fn min_int(a: int, b: int) -> int {
    if a < b {
        a
    } else {
        b
    }
}

/// The tightest of the per-deposit limit and what is left of the daily,
/// monthly and balance limits, never below zero.
pub open spec fn allowance_of(limits: DepositLimitsFor, used_24h: i64, used_30d: i64, balance: i64) -> int {
    let m = min_int(
        min_int(min_int(limits.per_deposit as int, limits.daily - used_24h), limits.monthly - used_30d),
        limits.max_balance - balance,
    );
    if m > 0 {
        m
    } else {
        0
    }
}

/// The largest deposit a member may start right now.
pub fn deposit_allowance(limits: DepositLimitsFor, used_24h: i64, used_30d: i64, balance: i64) -> (r: i64)
    requires
        i64::MIN <= limits.daily - used_24h <= i64::MAX,
        i64::MIN <= limits.monthly - used_30d <= i64::MAX,
        i64::MIN <= limits.max_balance - balance <= i64::MAX,
    ensures
        r == allowance_of(limits, used_24h, used_30d, balance),
        r >= 0,
{
    let mut m = limits.per_deposit;
    let d = limits.daily - used_24h;
    if d < m {
        m = d;
    }
    let mo = limits.monthly - used_30d;
    if mo < m {
        m = mo;
    }
    let b = limits.max_balance - balance;
    if b < m {
        m = b;
    }
    if m > 0 {
        m
    } else {
        0
    }
}

} // verus!
