//! Where a repayment's interest goes: the platform, the reserve, the
//! depositors, the guarantors and the recovery fund.

use vstd::prelude::*;
use crate::policy::{Band, GuarantorTier, InterestSplit, PolicyParams};
use super::rounding::{half_even, lemma_floor_div_bounds, lemma_half_even_within, lemma_i64_product, round_half_even};
use super::shares::{apportion, apportioned, lemma_apportioned_sums_to_total};
use super::sums::{
    as_ints, lemma_pos_sum_bounds, lemma_sum_int_push, lemma_take_succ, pos, pos_sum, sum_i64,
    sum_int,
};

verus! {

/// The first problem with a guarantor tier at or after index `i`.
pub open spec fn tier_problem(tiers: Seq<GuarantorTier>, cap: i64, i: int) -> Option<&'static str>
    decreases tiers.len() - i,
{
    if i < 0 || i >= tiers.len() {
        None
    } else if tiers[i].min_score > tiers[i].max_score {
        Some("tier min_score above max_score")
    } else if tiers[i].share < 0 || tiers[i].share > cap {
        Some("tier share outside 0..=guarantor_cap")
    } else {
        tier_problem(tiers, cap, i + 1)
    }
}

/// The first problem between neighbouring tiers `i - 1` and `i`, from `i` on.
pub open spec fn tier_window_problem(tiers: Seq<GuarantorTier>, i: int) -> Option<&'static str>
    decreases tiers.len() - i,
{
    if i < 1 || i >= tiers.len() {
        None
    } else if tiers[i].min_score != tiers[i - 1].max_score + 1 {
        Some("tiers must be contiguous and ascending")
    } else if tiers[i].share < tiers[i - 1].share {
        Some("tier share must not fall as score rises")
    } else {
        tier_window_problem(tiers, i + 1)
    }
}

/// Some pricing band reaches outside the span of the tier table.
pub open spec fn bands_escape_tiers(bands: Seq<Band>, first: GuarantorTier, last: GuarantorTier) -> bool {
    exists|i: int|
        0 <= i < bands.len() && (#[trigger] bands[i].min_score < first.min_score || bands[i].max_score
            > last.max_score)
}

pub open spec fn fixed_shares_nonneg(s: InterestSplit) -> bool {
    s.platform >= 0 && s.reserve >= 0 && s.depositors >= 0 && s.risk_band >= 0
}

/// What the interest-split check says, in the order it checks.
pub open spec fn interest_split_verdict(params: PolicyParams) -> Result<(), &'static str> {
    let s = params.interest_split;
    let tiers = s.guarantor_tiers@;
    if !fixed_shares_nonneg(s) {
        Err("negative share")
    } else if s.platform + s.reserve + s.depositors + s.risk_band != 100 {
        Err("platform + reserve + depositors + risk_band must equal 100")
    } else if s.guarantor_cap < 0 || s.guarantor_cap > s.risk_band {
        Err("guarantor_cap must be within the risk band")
    } else if tiers.len() == 0 {
        Err("no guarantor tiers")
    } else if tier_problem(tiers, s.guarantor_cap, 0) is Some {
        Err(tier_problem(tiers, s.guarantor_cap, 0)->0)
    } else if tier_window_problem(tiers, 1) is Some {
        Err(tier_window_problem(tiers, 1)->0)
    } else if bands_escape_tiers(params.bands@, tiers[0], tiers.last()) {
        Err("tiers do not cover every banded score")
    } else {
        Ok(())
    }
}

/// A tier row is sound on its own: a non-empty score range and a share
/// within `0..=cap`.
pub open spec fn tier_row_sound(t: GuarantorTier, cap: i64) -> bool {
    t.min_score <= t.max_score && 0 <= t.share <= cap
}

/// Two neighbouring tiers are sound: the second starts right after the first
/// ends, and its share is no smaller.
pub open spec fn tier_step_sound(a: GuarantorTier, b: GuarantorTier) -> bool {
    b.min_score == a.max_score + 1 && b.share >= a.share
}

/// The interest split, stated in one piece: four non-negative fixed shares
/// summing to 100, a guarantor cap within the risk band, a non-empty tier
/// table whose rows are sound and whose neighbours are contiguous with
/// non-falling shares, and every pricing band inside the span of the tiers.
pub open spec fn interest_split_sound(params: PolicyParams) -> bool {
    let s = params.interest_split;
    let tiers = s.guarantor_tiers@;
    let bands = params.bands@;
    &&& fixed_shares_nonneg(s)
    &&& s.platform + s.reserve + s.depositors + s.risk_band == 100
    &&& 0 <= s.guarantor_cap <= s.risk_band
    &&& tiers.len() > 0
    &&& forall|i: int| 0 <= i < tiers.len() ==> tier_row_sound(#[trigger] tiers[i], s.guarantor_cap)
    &&& forall|i: int| 1 <= i < tiers.len() ==> tier_step_sound(tiers[i - 1], #[trigger] tiers[i])
    &&& forall|i: int|
        0 <= i < bands.len() ==> tiers[0].min_score <= (#[trigger] bands[i]).min_score
            && bands[i].max_score <= tiers.last().max_score
}

/// The row scan finds no problem from `i` on exactly when every row from `i` on is sound.
pub proof fn lemma_tier_problem_none(tiers: Seq<GuarantorTier>, cap: i64, i: int)
    requires
        0 <= i <= tiers.len(),
    ensures
        tier_problem(tiers, cap, i) is None <==> forall|j: int|
            i <= j < tiers.len() ==> tier_row_sound(#[trigger] tiers[j], cap),
    decreases tiers.len() - i,
{
    if i < tiers.len() {
        lemma_tier_problem_none(tiers, cap, i + 1);
    }
}

/// The neighbour scan finds no problem from `i` on exactly when every step from `i` on is sound.
pub proof fn lemma_tier_window_none(tiers: Seq<GuarantorTier>, i: int)
    requires
        1 <= i,
    ensures
        tier_window_problem(tiers, i) is None <==> forall|j: int|
            i <= j < tiers.len() ==> tier_step_sound(tiers[j - 1], #[trigger] tiers[j]),
    decreases tiers.len() - i,
{
    if i < tiers.len() {
        lemma_tier_window_none(tiers, i + 1);
    }
}

/// The interest-split check passes exactly when the split is sound as a whole.
pub proof fn law_interest_split_closed_form(params: PolicyParams)
    ensures
        interest_split_verdict(params) is Ok <==> interest_split_sound(params),
{
    let s = params.interest_split;
    let tiers = s.guarantor_tiers@;
    lemma_tier_problem_none(tiers, s.guarantor_cap, 0);
    lemma_tier_window_none(tiers, 1);
    if interest_split_sound(params) && tiers.len() > 0 {
        if bands_escape_tiers(params.bands@, tiers[0], tiers.last()) {
            let i = choose|i: int|
                0 <= i < params.bands@.len() && (#[trigger] params.bands@[i].min_score
                    < tiers[0].min_score || params.bands@[i].max_score > tiers.last().max_score);
            assert(tiers[0].min_score <= params.bands@[i].min_score);
        }
    }
}

/// The rulebook's interest split is internally consistent: the four fixed
/// shares are non-negative and sum to exactly 100, the guarantor cap fits
/// inside the risk band, and the tier table is contiguous, ascending, never
/// above the cap, never falling as score rises, and covers every score a
/// pricing band can produce.
pub fn check_interest_split(params: &PolicyParams) -> (r: Result<(), &'static str>)
    requires
        fixed_shares_nonneg(params.interest_split) ==> params.interest_split.platform
            + params.interest_split.reserve + params.interest_split.depositors
            + params.interest_split.risk_band <= i64::MAX,
    ensures
        r == interest_split_verdict(*params),
        r is Ok <==> interest_split_sound(*params),
{
    proof {
        law_interest_split_closed_form(*params);
    }
    let s = &params.interest_split;
    if s.platform < 0 || s.reserve < 0 || s.depositors < 0 || s.risk_band < 0 {
        return Err("negative share");
    }
    if s.platform + s.reserve + s.depositors + s.risk_band != 100 {
        return Err("platform + reserve + depositors + risk_band must equal 100");
    }
    if s.guarantor_cap < 0 || s.guarantor_cap > s.risk_band {
        return Err("guarantor_cap must be within the risk band");
    }
    let ghost tiers = s.guarantor_tiers@;
    let n = s.guarantor_tiers.len();
    if n == 0 {
        return Err("no guarantor tiers");
    }
    let mut k: usize = 0;
    while k < n
        invariant
            k <= n,
            n == tiers.len(),
            n > 0,
            tiers == s.guarantor_tiers@,
            *s == params.interest_split,
            fixed_shares_nonneg(*s),
            s.platform + s.reserve + s.depositors + s.risk_band == 100,
            !(s.guarantor_cap < 0 || s.guarantor_cap > s.risk_band),
            tier_problem(tiers, s.guarantor_cap, 0) == tier_problem(tiers, s.guarantor_cap, k as int),
        decreases n - k,
    {
        let t = &s.guarantor_tiers[k];
        if t.min_score > t.max_score {
            return Err("tier min_score above max_score");
        }
        if t.share < 0 || t.share > s.guarantor_cap {
            return Err("tier share outside 0..=guarantor_cap");
        }
        k = k + 1;
    }
    let mut w: usize = 1;
    while w < n
        invariant
            1 <= w <= n,
            n == tiers.len(),
            tiers == s.guarantor_tiers@,
            *s == params.interest_split,
            fixed_shares_nonneg(*s),
            s.platform + s.reserve + s.depositors + s.risk_band == 100,
            !(s.guarantor_cap < 0 || s.guarantor_cap > s.risk_band),
            tier_problem(tiers, s.guarantor_cap, 0) is None,
            tier_window_problem(tiers, 1) == tier_window_problem(tiers, w as int),
        decreases n - w,
    {
        let a = &s.guarantor_tiers[w - 1];
        let b = &s.guarantor_tiers[w];
        if b.min_score as i32 != a.max_score as i32 + 1 {
            return Err("tiers must be contiguous and ascending");
        }
        if b.share < a.share {
            return Err("tier share must not fall as score rises");
        }
        w = w + 1;
    }
    let first_min = s.guarantor_tiers[0].min_score;
    let last_max = s.guarantor_tiers[n - 1].max_score;
    let ghost bands = params.bands@;
    let m = params.bands.len();
    let mut j: usize = 0;
    while j < m
        invariant
            j <= m,
            m == bands.len(),
            bands == params.bands@,
            n == tiers.len(),
            n > 0,
            tiers == s.guarantor_tiers@,
            *s == params.interest_split,
            fixed_shares_nonneg(*s),
            s.platform + s.reserve + s.depositors + s.risk_band == 100,
            !(s.guarantor_cap < 0 || s.guarantor_cap > s.risk_band),
            tier_problem(tiers, s.guarantor_cap, 0) is None,
            tier_window_problem(tiers, 1) is None,
            first_min == tiers[0].min_score,
            last_max == tiers.last().max_score,
            forall|i: int|
                0 <= i < j ==> !(#[trigger] bands[i].min_score < first_min || bands[i].max_score
                    > last_max),
        decreases m - j,
    {
        let b = &params.bands[j];
        if b.min_score < first_min || b.max_score > last_max {
            proof {
                assert(0 <= j < bands.len() && (bands[j as int].min_score < first_min
                    || bands[j as int].max_score > last_max));
                assert(bands_escape_tiers(bands, tiers[0], tiers.last()));
            }
            return Err("tiers do not cover every banded score");
        }
        j = j + 1;
    }
    Ok(())
}

pub open spec fn tier_holds(t: GuarantorTier, score: i16) -> bool {
    t.min_score <= score <= t.max_score
}

/// Index of the first tier at or after `i` that holds the score, if any.
pub open spec fn first_tier_index(tiers: Seq<GuarantorTier>, score: i16, i: int) -> Option<int>
    decreases tiers.len() - i,
{
    if i < 0 || i >= tiers.len() {
        None
    } else if tier_holds(tiers[i], score) {
        Some(i)
    } else {
        first_tier_index(tiers, score, i + 1)
    }
}

/// The guarantor tier a score falls in: the first that holds it.
pub fn guarantor_tier_for(score: i16, split: &InterestSplit) -> (r: Option<&GuarantorTier>)
    ensures
        r is None <==> first_tier_index(split.guarantor_tiers@, score, 0) is None,
        r matches Some(t) ==> *t == split.guarantor_tiers@[first_tier_index(
            split.guarantor_tiers@,
            score,
            0,
        )->0],
{
    let ghost tiers = split.guarantor_tiers@;
    let n = split.guarantor_tiers.len();
    let mut i: usize = 0;
    while i < n
        invariant
            i <= n,
            n == tiers.len(),
            tiers == split.guarantor_tiers@,
            first_tier_index(tiers, score, 0) == first_tier_index(tiers, score, i as int),
        decreases n - i,
    {
        let t = &split.guarantor_tiers[i];
        if score >= t.min_score && score <= t.max_score {
            return Some(t);
        }
        i = i + 1;
    }
    None
}

/// Where one interest payment lands, in whole centavos.
#[derive(Clone, Copy, Debug, PartialEq, Eq)]
pub struct InterestParts {
    pub platform: i64,
    pub reserve: i64,
    pub depositors: i64,
    pub guarantor: i64,
    pub recovery_fund: i64,
}

/// `p` percent of the interest, rounded half to even.
pub open spec fn pct_of(interest: int, p: i64) -> i64 {
    half_even(interest * p, 100) as i64
}

pub open spec fn parts_total(p: InterestParts) -> int {
    p.platform + p.reserve + p.depositors + p.guarantor + p.recovery_fund
}

pub open spec fn held(v: int, lo: int, hi: int) -> int {
    if v < lo {
        lo
    } else if v > hi {
        hi
    } else {
        v
    }
}

/// `v`, held down to `room`.
pub open spec fn upto(v: int, room: int) -> int {
    if v > room {
        room
    } else {
        v
    }
}

/// The platform's fixed share: its percent of the interest, rounded once,
/// and never more than the interest.
pub open spec fn fixed_platform(interest: int, split: InterestSplit) -> int {
    upto(pct_of(interest, split.platform) as int, interest)
}

/// The reserve's fixed share, rounded once and held to what the platform left.
pub open spec fn fixed_reserve(interest: int, split: InterestSplit) -> int {
    upto(pct_of(interest, split.reserve) as int, interest - fixed_platform(interest, split))
}

/// The depositors' fixed share, rounded once and held to what the platform
/// and the reserve left.
pub open spec fn fixed_depositors(interest: int, split: InterestSplit) -> int {
    upto(
        pct_of(interest, split.depositors) as int,
        interest - fixed_platform(interest, split) - fixed_reserve(interest, split),
    )
}

/// The risk band: what the fixed shares leave of the interest. Rounding each
/// fixed share up can over-allocate by a centavo; the fixed shares are then
/// held to the interest in order, so the band is squeezed to zero but never
/// below.
pub open spec fn risk_band_of(interest: int, split: InterestSplit) -> int {
    interest - fixed_platform(interest, split) - fixed_reserve(interest, split) - fixed_depositors(
        interest,
        split,
    )
}

/// The four-way split with one guarantor, as the published worked example
/// states it: the fixed shares are each rounded once, the risk band is what
/// remains, the guarantor's share (capped, and held to the band) comes out of
/// the band, and the recovery fund keeps the rest.
pub open spec fn split_parts(interest: i64, split: InterestSplit, guarantor_share: Option<i64>) -> InterestParts {
    let band = risk_band_of(interest as int, split);
    let guarantor = match guarantor_share {
        None => 0,
        Some(s) => held(
            pct_of(interest as int, if s < split.guarantor_cap {
                s
            } else {
                split.guarantor_cap
            }) as int,
            0,
            band,
        ),
    };
    InterestParts {
        platform: fixed_platform(interest as int, split) as i64,
        reserve: fixed_reserve(interest as int, split) as i64,
        depositors: fixed_depositors(interest as int, split) as i64,
        guarantor: guarantor as i64,
        recovery_fund: (band - guarantor) as i64,
    }
}

/// The three fixed percents each lie between nothing and the whole.
pub open spec fn fixed_percents_valid(s: InterestSplit) -> bool {
    &&& 0 <= s.platform <= 100
    &&& 0 <= s.reserve <= 100
    &&& 0 <= s.depositors <= 100
}

proof fn lemma_pct_nonneg(interest: int, p: i64)
    requires
        0 <= interest <= i64::MAX,
        0 <= p <= 100,
    ensures
        0 <= pct_of(interest, p) <= interest,
{
    assert(0 <= interest * p <= interest * 100) by (nonlinear_arith)
        requires
            interest >= 0,
            0 <= p <= 100,
    ;
    lemma_half_even_within(interest * p, 100, interest);
}

pub fn pct(interest: i64, p: i64) -> (r: i64)
    ensures
        r == pct_of(interest as int, p),
{
    proof {
        lemma_i64_product(interest as int, p as int);
    }
    round_half_even(interest as i128 * p as i128, 100)
}

/// The three fixed shares of an interest payment, in order: platform,
/// reserve, depositors, each rounded once and held to what is left.
fn fixed_shares(interest: i64, split: &InterestSplit) -> (r: (i64, i64, i64))
    ensures
        r.0 == fixed_platform(interest as int, *split),
        r.1 == fixed_reserve(interest as int, *split),
        r.2 == fixed_depositors(interest as int, *split),
        risk_band_of(interest as int, *split) >= 0,
{
    let p0 = pct(interest, split.platform);
    let platform: i64 = if p0 > interest {
        interest
    } else {
        p0
    };
    let room1: i128 = interest as i128 - platform as i128;
    let r0 = pct(interest, split.reserve);
    let reserve: i64 = if r0 as i128 > room1 {
        room1 as i64
    } else {
        r0
    };
    let room2: i128 = room1 - reserve as i128;
    let d0 = pct(interest, split.depositors);
    let depositors: i64 = if d0 as i128 > room2 {
        room2 as i64
    } else {
        d0
    };
    (platform, reserve, depositors)
}

/// The four-way split of one interest payment with at most one guarantor.
/// The parts always sum back to the interest; the guarantor's share and the
/// recovery fund are never negative, and neither is any part when the
/// interest and the fixed percents are not.
pub fn split_interest_parts(interest: i64, split: &InterestSplit, guarantor_share: Option<i64>) -> (r: InterestParts)
    requires
        risk_band_of(interest as int, *split) <= i64::MAX,
    ensures
        r == split_parts(interest, *split, guarantor_share),
        parts_total(r) == interest,
        r.guarantor >= 0,
        r.recovery_fund >= 0,
        guarantor_share is None ==> r.guarantor == 0,
        interest >= 0 && fixed_percents_valid(*split) ==> r.platform >= 0 && r.reserve >= 0 && r.depositors >= 0,
{
    let (platform, reserve, depositors) = fixed_shares(interest, split);
    let band: i64 = (interest as i128 - platform as i128 - reserve as i128 - depositors as i128) as i64;
    let guarantor: i64 = match guarantor_share {
        None => 0,
        Some(s) => {
            let capped = if s < split.guarantor_cap {
                s
            } else {
                split.guarantor_cap
            };
            let g = pct(interest, capped);
            if g < 0 {
                0
            } else if g > band {
                band
            } else {
                g
            }
        },
    };
    proof {
        if interest >= 0 && fixed_percents_valid(*split) {
            lemma_pct_nonneg(interest as int, split.platform);
            lemma_pct_nonneg(interest as int, split.reserve);
            lemma_pct_nonneg(interest as int, split.depositors);
        }
    }
    InterestParts { platform, reserve, depositors, guarantor, recovery_fund: band - guarantor }
}

/// A repayment's interest as the books first take it: the platform's part,
/// rounded once, and the rest of it to the reserve. The two always sum back
/// to the interest.
pub fn split_interest(interest: i64, split: &InterestSplit) -> (r: (i64, i64))
    requires
        i64::MIN <= interest - pct_of(interest as int, split.platform) <= i64::MAX,
    ensures
        r.0 == pct_of(interest as int, split.platform),
        r.0 + r.1 == interest,
{
    let platform = pct(interest, split.platform);
    (platform, interest - platform)
}

/// One accepted guarantor on the loan being repaid.
#[derive(Clone, Copy, Debug)]
pub struct GuarantorStake {
    pub pledge: i64,
    /// The guarantor's own score when the payment lands.
    pub score: i16,
}

/// One repayment's interest, as the books take it.
#[derive(Debug, PartialEq, Eq)]
pub struct BookedInterest {
    pub parts: InterestParts,
    /// Each depositor's slice of `parts.depositors`, in `balances` order.
    pub to_depositors: Vec<i64>,
    /// Each guarantor's slice of `parts.guarantor`, in `guarantors` order.
    pub to_guarantors: Vec<i64>,
    /// The tier percent each guarantor was paid at (0 below every tier).
    pub guarantor_tiers: Vec<i64>,
}

pub open spec fn nonneg_int(v: i64) -> int {
    if v > 0 {
        v as int
    } else {
        0
    }
}

/// The tier percent a guarantor earns at: their tier's share held to
/// `0..=guarantor_cap`, or nothing below every tier.
pub open spec fn tier_pct(score: i16, split: InterestSplit) -> i64 {
    match first_tier_index(split.guarantor_tiers@, score, 0) {
        None => 0,
        Some(i) => held(split.guarantor_tiers@[i].share as int, 0, split.guarantor_cap as int) as i64,
    }
}

/// A guarantor's weight: their pledge (never negative) times their tier
/// percent, held at the top of the `i64` range.
pub open spec fn stake_weight(g: GuarantorStake, split: InterestSplit) -> i64 {
    let w = pos(g.pledge) * tier_pct(g.score, split);
    if w > i64::MAX {
        i64::MAX
    } else {
        w as i64
    }
}

pub open spec fn stake_weights(gs: Seq<GuarantorStake>, split: InterestSplit) -> Seq<i64> {
    Seq::new(gs.len(), |k: int| stake_weight(gs[k], split))
}

pub open spec fn pledges(gs: Seq<GuarantorStake>) -> Seq<i64> {
    Seq::new(gs.len(), |k: int| gs[k].pledge)
}

/// Every guarantor in a tier has a cap to be held to.
pub open spec fn tiers_have_cap(gs: Seq<GuarantorStake>, split: InterestSplit) -> bool {
    forall|k: int|
        0 <= k < gs.len() && first_tier_index(split.guarantor_tiers@, #[trigger] gs[k].score, 0) is Some
            ==> split.guarantor_cap >= 0
}

/// The guarantors' combined share: the pledge-weighted average of their tier
/// percents applied to the interest, rounded once, held to the band.
pub open spec fn guarantors_part(interest: int, gs: Seq<GuarantorStake>, split: InterestSplit, band: int) -> int {
    let total_pledged = pos_sum(pledges(gs));
    if total_pledged == 0 {
        0
    } else {
        held(
            half_even(interest * pos_sum(stake_weights(gs, split)), total_pledged * 100) as i64 as int,
            0,
            band,
        )
    }
}

fn tier_percent(score: i16, split: &InterestSplit) -> (r: i64)
    requires
        first_tier_index(split.guarantor_tiers@, score, 0) is Some ==> split.guarantor_cap >= 0,
    ensures
        r == tier_pct(score, *split),
        0 <= r,
{
    match guarantor_tier_for(score, split) {
        Some(t) => {
            if t.share < 0 {
                0
            } else if t.share > split.guarantor_cap {
                split.guarantor_cap
            } else {
                t.share
            }
        },
        None => 0,
    }
}

/// Everything a repayment decides about its interest, in one step. The fixed
/// shares are each rounded once, held in order to what the interest has
/// left, and the risk band is what remains (never below zero), so the parts
/// always sum back to the interest and none is negative. Each guarantor earns their own tier's percent on their share
/// of the pledges; the combined amount is rounded once, held to the band, and
/// apportioned between them by `tier * pledge`; the recovery fund keeps the
/// rest of the band. The depositors' share is apportioned by balance; with no
/// balance anywhere to share it by, it stays in the reserve.
pub fn book_interest(
    interest: i64,
    split: &InterestSplit,
    balances: &[i64],
    guarantors: &[GuarantorStake],
) -> (r: BookedInterest)
    requires
        balances@.len() <= i64::MAX,
        guarantors@.len() <= 0x1_0000_0000,
        tiers_have_cap(guarantors@, *split),
        risk_band_of(nonneg_int(interest), *split) <= i64::MAX,
        i64::MIN <= fixed_reserve(nonneg_int(interest), *split) + fixed_depositors(nonneg_int(interest), *split)
            <= i64::MAX,
        nonneg_int(interest) * pos_sum(stake_weights(guarantors@, *split)) <= i128::MAX,
    ensures
        ({
            let i = if interest > 0 {
                interest as int
            } else {
                0
            };
            let platform = fixed_platform(i, *split);
            let reserve = fixed_reserve(i, *split);
            let depositors = fixed_depositors(i, *split);
            let band = risk_band_of(i, *split);
            let guarantor = guarantors_part(i, guarantors@, *split, band);
            let moved = depositors < 0 || (depositors > 0 && pos_sum(balances@) == 0);
            &&& r.parts.platform == platform
            &&& r.parts.guarantor == guarantor
            &&& r.parts.recovery_fund == band - guarantor
            &&& r.guarantor_tiers@.len() == guarantors@.len()
            &&& forall|k: int|
                0 <= k < guarantors@.len() ==> #[trigger] r.guarantor_tiers@[k] == tier_pct(
                    guarantors@[k].score,
                    *split,
                )
            &&& as_ints(r.to_guarantors@) =~= apportioned(guarantor, stake_weights(guarantors@, *split))
            &&& r.to_depositors@.len() == balances@.len()
            &&& moved ==> r.parts.reserve == reserve + depositors && r.parts.depositors == 0
                && forall|k: int| 0 <= k < balances@.len() ==> #[trigger] r.to_depositors@[k] == 0
            &&& !moved ==> r.parts.reserve == reserve && r.parts.depositors == depositors
                && as_ints(r.to_depositors@) =~= apportioned(depositors as int, balances@)
            &&& parts_total(r.parts) == i
        }),
        forall|k: int| 0 <= k < r.to_depositors@.len() ==> #[trigger] r.to_depositors@[k] >= 0,
        forall|k: int| 0 <= k < r.to_guarantors@.len() ==> #[trigger] r.to_guarantors@[k] >= 0,
        fixed_percents_valid(*split) ==> r.parts.platform >= 0 && r.parts.reserve >= 0
            && r.parts.depositors >= 0,
        sum_i64(r.to_guarantors@) == r.parts.guarantor,
        sum_i64(r.to_depositors@) == r.parts.depositors,
        r.to_guarantors@.len() == guarantors@.len(),
        0 <= r.parts.guarantor,
        0 <= r.parts.recovery_fund,
{
    let interest: i64 = if interest > 0 {
        interest
    } else {
        0
    };
    let (platform, reserve0, depositors0) = fixed_shares(interest, split);
    let mut reserve = reserve0;
    let mut depositors = depositors0;
    let band: i64 = (interest as i128 - platform as i128 - reserve as i128 - depositors as i128) as i64;
    proof {
        if fixed_percents_valid(*split) {
            lemma_pct_nonneg(interest as int, split.platform);
            lemma_pct_nonneg(interest as int, split.reserve);
            lemma_pct_nonneg(interest as int, split.depositors);
        }
    }
    let n = guarantors.len();
    let ghost gs = guarantors@;
    let mut tiers: Vec<i64> = Vec::new();
    let mut weights: Vec<i64> = Vec::new();
    let mut pledged: i128 = 0;
    let mut weighted: i128 = 0;
    let mut k: usize = 0;
    while k < n
        invariant
            k <= n,
            n == gs.len(),
            gs == guarantors@,
            n <= 0x1_0000_0000,
            tiers_have_cap(gs, *split),
            tiers@.len() == k,
            weights@.len() == k,
            forall|j: int| 0 <= j < k ==> #[trigger] tiers@[j] == tier_pct(gs[j].score, *split),
            weights@ =~= stake_weights(gs, *split).take(k as int),
            pledged == pos_sum(pledges(gs).take(k as int)),
            weighted == pos_sum(stake_weights(gs, *split).take(k as int)),
            0 <= pledged <= k * (i64::MAX as int),
            0 <= weighted <= k * (i64::MAX as int),
        decreases n - k,
    {
        let g = guarantors[k];
        proof {
            assert(first_tier_index(split.guarantor_tiers@, gs[k as int].score, 0) is Some
                ==> split.guarantor_cap >= 0);
        }
        let t = tier_percent(g.score, split);
        let p: i64 = if g.pledge > 0 {
            g.pledge
        } else {
            0
        };
        proof {
            lemma_i64_product(p as int, t as int);
        }
        let wide = p as i128 * t as i128;
        let w: i64 = if wide > i64::MAX as i128 {
            i64::MAX
        } else {
            wide as i64
        };
        proof {
            assert(w == stake_weight(gs[k as int], *split));
            assert(w >= 0) by (nonlinear_arith)
                requires
                    wide == p * t,
                    p >= 0,
                    t >= 0,
                    w == (if wide > i64::MAX { i64::MAX as int } else { wide as int }),
            ;
            lemma_take_succ(stake_weights(gs, *split), k as int);
            lemma_take_succ(pledges(gs), k as int);
        }
        tiers.push(t);
        weights.push(w);
        pledged = pledged + p as i128;
        weighted = weighted + w as i128;
        k = k + 1;
    }
    proof {
        assert(stake_weights(gs, *split).take(n as int) =~= stake_weights(gs, *split));
        assert(pledges(gs).take(n as int) =~= pledges(gs));
    }
    let guarantor: i64 = if pledged == 0 {
        0
    } else {
        proof {
            assert(interest * weighted >= 0) by (nonlinear_arith)
                requires
                    0 <= interest,
                    0 <= weighted,
            ;
            assert(pledged * 100 <= 0x1_0000_0000 * i64::MAX * 100) by (nonlinear_arith)
                requires
                    0 <= pledged <= n * (i64::MAX as int),
                    n <= 0x1_0000_0000,
            ;
        }
        let g = round_half_even(interest as i128 * weighted, pledged * 100);
        if g < 0 {
            0
        } else if g > band {
            band
        } else {
            g
        }
    };
    proof {
        assert(guarantor == guarantors_part(interest as int, gs, *split, band as int));
    }
    let to_guarantors = apportion(guarantor, &weights);
    proof {
        // nonnegative weights: their positive-part sum is the weighted total,
        // so a positive guarantor share always has weight to land on
        if guarantor > 0 {
            assert(pledged > 0);
            lemma_floor_div_bounds(interest * weighted, pledged * 100);
            if weighted == 0 {
                assert(interest * weighted == 0) by (nonlinear_arith)
                    requires
                        weighted == 0,
                ;
                assert(half_even(0, pledged * 100) == 0);
            }
            assert(pos_sum(weights@) > 0);
        }
        lemma_apportioned_sums_to_total(guarantor as int, weights@);
        if guarantor <= 0 {
            super::sums::lemma_sum_i64_zeros(to_guarantors@);
        }
    }
    let mut to_depositors = apportion(depositors, balances);
    let ghost dep_apportioned = to_depositors@;
    proof {
        lemma_pos_sum_bounds(balances@);
    }
    let moved = depositors < 0 || (depositors > 0 && {
        let mut any = false;
        let m = balances.len();
        let mut j: usize = 0;
        while j < m
            invariant
                j <= m,
                m == balances@.len(),
                any == (pos_sum(balances@.take(j as int)) > 0),
                pos_sum(balances@.take(j as int)) >= 0,
            decreases m - j,
        {
            proof {
                lemma_take_succ(balances@, j as int);
            }
            if balances[j] > 0 {
                any = true;
            }
            j = j + 1;
        }
        proof {
            assert(balances@.take(m as int) =~= balances@);
        }
        !any
    });
    proof {
        if !moved && depositors <= 0 {
            super::sums::lemma_sum_i64_zeros(to_depositors@);
        }
    }
    if moved {
        reserve = reserve + depositors;
        depositors = 0;
        let mut zeros: Vec<i64> = Vec::new();
        let m = balances.len();
        let mut j: usize = 0;
        while j < m
            invariant
                j <= m,
                zeros@.len() == j,
                forall|q: int| 0 <= q < j ==> zeros@[q] == 0,
                sum_i64(zeros@) == 0,
            decreases m - j,
        {
            proof {
                super::sums::lemma_sum_i64_push(zeros@, 0);
            }
            zeros.push(0);
            j = j + 1;
        }
        to_depositors = zeros;
    }
    BookedInterest {
        parts: InterestParts { platform, reserve, depositors, guarantor, recovery_fund: band - guarantor },
        to_depositors,
        to_guarantors,
        guarantor_tiers: tiers,
    }
}

} // verus!
