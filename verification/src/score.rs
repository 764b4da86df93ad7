//! Credit scores: how each way a loan can end moves them, and the clamps the
//! writers of those movements apply.

use vstd::prelude::*;
use crate::text::str_eq;

verus! {

/// Score movement on a loan repaid in full, paid at term end.
pub const SCORE_BUMP_ON_CLOSE: i16 = 5;
/// What a guarantor loses when their pledge is actually claimed.
pub const SCORE_PENALTY_ON_CLAIM: i16 = 10;
/// Given back to a claimed guarantor when the default is later settled.
pub const SCORE_RESTORE_ON_GUARANTOR_SETTLE: i16 = 5;
/// What a borrower loses when their loan is declared in default.
pub const SCORE_PENALTY_ON_DEFAULT: i16 = 25;
/// Given back to a borrower when their default is settled.
pub const SCORE_RESTORE_ON_RECONCILE: i16 = 20;
/// The top of the 50 to 150 band.
pub const SCORE_MAX: i16 = 150;
/// The bottom of the 50 to 150 band.
pub const SCORE_MIN: i16 = 50;
/// A new account's score.
pub const SCORE_OPENING: i16 = 50;

/// Why a score moved: stable codes the screens switch on.
pub const REPAID_TERM_COMPLETE: &'static str = "loan_repaid_term_complete";
pub const LOAN_DEFAULTED: &'static str = "loan_defaulted";
pub const DEFAULT_SETTLED: &'static str = "default_settled";
pub const GUARANTOR_CLAIMED: &'static str = "guarantor_claimed";
pub const GUARANTOR_CLAIM_SETTLED: &'static str = "guarantor_claim_settled";

pub open spec fn min_i(a: int, b: int) -> int {
    if a < b {
        a
    } else {
        b
    }
}

pub open spec fn max_i(a: int, b: int) -> int {
    if a > b {
        a
    } else {
        b
    }
}

/// Where an outcome moves a score, clamped the way the code applying it
/// clamps: rises stop at 150, a claim cannot take a guarantor below 50, a
/// default floors at 0; an unknown code moves nothing.
pub open spec fn outcome_score(code: Seq<char>, score: int) -> int {
    if code == REPAID_TERM_COMPLETE@ {
        min_i(score + 5, 150)
    } else if code == LOAN_DEFAULTED@ {
        max_i(score - 25, 0)
    } else if code == DEFAULT_SETTLED@ {
        min_i(score + 20, 150)
    } else if code == GUARANTOR_CLAIMED@ {
        max_i(score - 10, 50)
    } else if code == GUARANTOR_CLAIM_SETTLED@ {
        min_i(score + 5, 150)
    } else {
        score
    }
}

/// The scores an outcome can be applied to in 16-bit arithmetic: a rise
/// must not run past the top of `i16`, a penalty past its bottom, and the
/// reported delta of a claim clamped up to 50 must fit too. Any other code
/// moves nothing and takes every score.
pub open spec fn outcome_fits(code: Seq<char>, score: int) -> bool {
    if code == REPAID_TERM_COMPLETE@ {
        score <= 32_762
    } else if code == LOAN_DEFAULTED@ {
        score >= -32_743
    } else if code == DEFAULT_SETTLED@ {
        score <= 32_747
    } else if code == GUARANTOR_CLAIMED@ {
        score >= -32_717
    } else if code == GUARANTOR_CLAIM_SETTLED@ {
        score <= 32_762
    } else {
        true
    }
}

/// One way an open loan can still end, and what it would do to the score.
#[derive(Clone, Copy, Debug, PartialEq, Eq)]
pub struct ScoreOutcome {
    /// The reason code the change would be logged under.
    pub reason: &'static str,
    /// From today's score, clamped: what would really move.
    pub delta: i16,
    pub score_to: i16,
}

/// What an outcome would move `score` to, and by how much.
pub fn outcome(code: &'static str, score: i16) -> (r: ScoreOutcome)
    requires
        outcome_fits(code@, score as int),
    ensures
        r.reason == code,
        r.score_to == outcome_score(code@, score as int),
        r.delta == r.score_to - score,
{
    let to: i16 = if str_eq(code, REPAID_TERM_COMPLETE) {
        if score + SCORE_BUMP_ON_CLOSE < SCORE_MAX {
            score + SCORE_BUMP_ON_CLOSE
        } else {
            SCORE_MAX
        }
    } else if str_eq(code, LOAN_DEFAULTED) {
        if score - SCORE_PENALTY_ON_DEFAULT > 0 {
            score - SCORE_PENALTY_ON_DEFAULT
        } else {
            0
        }
    } else if str_eq(code, DEFAULT_SETTLED) {
        if score + SCORE_RESTORE_ON_RECONCILE < SCORE_MAX {
            score + SCORE_RESTORE_ON_RECONCILE
        } else {
            SCORE_MAX
        }
    } else if str_eq(code, GUARANTOR_CLAIMED) {
        if score - SCORE_PENALTY_ON_CLAIM > SCORE_MIN {
            score - SCORE_PENALTY_ON_CLAIM
        } else {
            SCORE_MIN
        }
    } else if str_eq(code, GUARANTOR_CLAIM_SETTLED) {
        if score + SCORE_RESTORE_ON_GUARANTOR_SETTLE < SCORE_MAX {
            score + SCORE_RESTORE_ON_GUARANTOR_SETTLE
        } else {
            SCORE_MAX
        }
    } else {
        score
    };
    ScoreOutcome { reason: code, delta: to - score, score_to: to }
}

/// The outcomes a borrower's own open loan can still have: a running loan
/// can be repaid or defaulted; a default can only be settled.
pub fn borrower_outcomes(status: &str, score: i16) -> (r: Vec<ScoreOutcome>)
    requires
        status@ == "active"@ ==> -32_743 <= score <= 32_762,
        status@ != "active"@ ==> score <= 32_747,
    ensures
        status@ == "active"@ ==> r@.len() == 2 && r@[0].reason == REPAID_TERM_COMPLETE
            && r@[0].score_to == outcome_score(REPAID_TERM_COMPLETE@, score as int)
            && r@[1].reason == LOAN_DEFAULTED && r@[1].score_to == outcome_score(
            LOAN_DEFAULTED@,
            score as int,
        ),
        status@ != "active"@ ==> r@.len() == 1 && r@[0].reason == DEFAULT_SETTLED
            && r@[0].score_to == outcome_score(DEFAULT_SETTLED@, score as int),
        forall|k: int| 0 <= k < r@.len() ==> #[trigger] r@[k].delta == r@[k].score_to - score,
{
    proof {
        lemma_codes_distinct();
    }
    let mut out: Vec<ScoreOutcome> = Vec::new();
    if str_eq(status, "active") {
        out.push(outcome(REPAID_TERM_COMPLETE, score));
        out.push(outcome(LOAN_DEFAULTED, score));
    } else {
        out.push(outcome(DEFAULT_SETTLED, score));
    }
    out
}

/// The outcomes a pledge can still have for its guarantor: one still
/// accepted can be claimed, and a claim already charged comes partly back if
/// the default is settled.
pub fn guarantor_outcomes(pledge_status: &str, claimed: bool, score: i16) -> (r: Vec<ScoreOutcome>)
    requires
        pledge_status@ == "accepted"@ ==> score >= -32_717,
        claimed ==> score <= 32_762,
    ensures
        r@.len() == (if pledge_status@ == "accepted"@ {
            1int
        } else {
            0
        }) + (if claimed {
            1int
        } else {
            0
        }),
        pledge_status@ == "accepted"@ ==> r@[0].reason == GUARANTOR_CLAIMED && r@[0].score_to
            == outcome_score(GUARANTOR_CLAIMED@, score as int),
        claimed ==> r@.last().reason == GUARANTOR_CLAIM_SETTLED && r@.last().score_to
            == outcome_score(GUARANTOR_CLAIM_SETTLED@, score as int),
        forall|k: int| 0 <= k < r@.len() ==> #[trigger] r@[k].delta == r@[k].score_to - score,
{
    proof {
        lemma_codes_distinct();
    }
    let mut out: Vec<ScoreOutcome> = Vec::new();
    if str_eq(pledge_status, "accepted") {
        out.push(outcome(GUARANTOR_CLAIMED, score));
    }
    if claimed {
        out.push(outcome(GUARANTOR_CLAIM_SETTLED, score));
    }
    out
}

/// A rise already earned and waiting on its term end, projected from the one before it.
#[derive(Clone, Copy, Debug, PartialEq, Eq)]
pub struct ProjectedRise {
    pub score_from: i16,
    pub score_to: i16,
}

pub open spec fn projected_from(score: int, k: nat) -> int
    decreases k,
{
    if k == 0 {
        score
    } else {
        outcome_score(REPAID_TERM_COMPLETE@, projected_from(score, (k - 1) as nat))
    }
}

/// `count` rises owed, each projected on top of the ones due before it.
pub fn project_rises(score: i16, count: usize) -> (r: Vec<ProjectedRise>)
    requires
        score <= 32_762,
    ensures
        r@.len() == count,
        forall|k: int|
            0 <= k < count ==> (#[trigger] r@[k]).score_from == projected_from(score as int, k as nat)
                && r@[k].score_to == projected_from(score as int, (k + 1) as nat),
{
    let mut out: Vec<ProjectedRise> = Vec::new();
    let mut running = score;
    let mut k: usize = 0;
    while k < count
        invariant
            k <= count,
            out@.len() == k,
            running == projected_from(score as int, k as nat),
            running <= 32_762,
            forall|q: int|
                0 <= q < k ==> (#[trigger] out@[q]).score_from == projected_from(score as int, q as nat)
                    && out@[q].score_to == projected_from(score as int, (q + 1) as nat),
        decreases count - k,
    {
        let rise = outcome(REPAID_TERM_COMPLETE, running);
        out.push(ProjectedRise { score_from: running, score_to: rise.score_to });
        running = rise.score_to;
        k = k + 1;
    }
    out
}

/// What a score writer records for one movement: nothing when the movement
/// was already logged for this loan and member, or the member has no score
/// row, or the clamp leaves the score where it was; otherwise the new score.
pub open spec fn score_write_of(code: Seq<char>, old: Option<i16>, already_logged: bool) -> Option<i16> {
    match old {
        None => None,
        Some(s) => if already_logged || outcome_score(code, s as int) == s as int {
            None
        } else {
            Some(outcome_score(code, s as int) as i16)
        },
    }
}

/// Decides a score movement the way the term-end sweep, the claim penalty
/// and the settlement refund write them: once per member and loan, only for a
/// member with a score, and only when the clamp moves it.
pub fn score_write(code: &'static str, old: Option<i16>, already_logged: bool) -> (r: Option<i16>)
    requires
        old matches Some(s) ==> outcome_fits(code@, s as int),
    ensures
        r == score_write_of(code@, old, already_logged),
{
    match old {
        None => None,
        Some(s) => {
            if already_logged {
                return None;
            }
            let moved = outcome(code, s);
            if moved.score_to == s {
                None
            } else {
                Some(moved.score_to)
            }
        },
    }
}

/// Whether a closed loan's term-end rise is due: scheduled, not yet
/// awarded, and its date reached.
pub fn rise_due(rise_at: Option<i64>, awarded: bool, status: &str, now: i64) -> (r: bool)
    ensures
        r == (!awarded && status@ == "closed"@ && (match rise_at {
            Some(t) => t <= now,
            None => false,
        })),
{
    if awarded || !str_eq(status, "closed") {
        return false;
    }
    match rise_at {
        Some(t) => t <= now,
        None => false,
    }
}

/// The reason codes are told apart by their text.
pub proof fn lemma_codes_distinct()
    ensures
        REPAID_TERM_COMPLETE@ != LOAN_DEFAULTED@,
        REPAID_TERM_COMPLETE@ != DEFAULT_SETTLED@,
        REPAID_TERM_COMPLETE@ != GUARANTOR_CLAIMED@,
        REPAID_TERM_COMPLETE@ != GUARANTOR_CLAIM_SETTLED@,
        LOAN_DEFAULTED@ != DEFAULT_SETTLED@,
        LOAN_DEFAULTED@ != GUARANTOR_CLAIMED@,
        LOAN_DEFAULTED@ != GUARANTOR_CLAIM_SETTLED@,
        DEFAULT_SETTLED@ != GUARANTOR_CLAIMED@,
        DEFAULT_SETTLED@ != GUARANTOR_CLAIM_SETTLED@,
        GUARANTOR_CLAIMED@ != GUARANTOR_CLAIM_SETTLED@,
{
    reveal_strlit("loan_repaid_term_complete");
    reveal_strlit("loan_defaulted");
    reveal_strlit("default_settled");
    reveal_strlit("guarantor_claimed");
    reveal_strlit("guarantor_claim_settled");
    assert(REPAID_TERM_COMPLETE@[5] != LOAN_DEFAULTED@[5]);
    assert(REPAID_TERM_COMPLETE@[0] != DEFAULT_SETTLED@[0]);
    assert(REPAID_TERM_COMPLETE@[0] != GUARANTOR_CLAIMED@[0]);
    assert(REPAID_TERM_COMPLETE@[0] != GUARANTOR_CLAIM_SETTLED@[0]);
    assert(LOAN_DEFAULTED@[0] != DEFAULT_SETTLED@[0]);
    assert(LOAN_DEFAULTED@[0] != GUARANTOR_CLAIMED@[0]);
    assert(LOAN_DEFAULTED@[0] != GUARANTOR_CLAIM_SETTLED@[0]);
    assert(DEFAULT_SETTLED@[0] != GUARANTOR_CLAIMED@[0]);
    assert(DEFAULT_SETTLED@[0] != GUARANTOR_CLAIM_SETTLED@[0]);
    assert(GUARANTOR_CLAIMED@.len() != GUARANTOR_CLAIM_SETTLED@.len());
}

/// A guarantor whose pledge is claimed and whose default is later settled
/// ends five points down, the same net a borrower carries for a default
/// later settled, wherever neither clamp bites.
pub proof fn law_settled_claims_net_five(score: int)
    requires
        60 <= score <= 150,
    ensures
        outcome_score(GUARANTOR_CLAIM_SETTLED@, outcome_score(GUARANTOR_CLAIMED@, score)) == score - 5,
        outcome_score(DEFAULT_SETTLED@, outcome_score(LOAN_DEFAULTED@, score)) == score - 5,
{
    lemma_codes_distinct();
}

/// Every way a loan can end keeps a score inside the 0 to 150 range it
/// started in, and a claim never takes a guarantor below 50.
pub proof fn law_outcomes_stay_in_band(code: Seq<char>, score: int)
    requires
        0 <= score <= 150,
    ensures
        0 <= outcome_score(code, score) <= 150,
        code == GUARANTOR_CLAIMED@ ==> outcome_score(code, score) >= min_i(score, 50),
{
    lemma_codes_distinct();
}

/// The latest of `floor` and the given moments.
pub open spec fn latest(moments: Seq<i64>, floor: i64) -> i64
    decreases moments.len(),
{
    if moments.len() == 0 {
        floor
    } else {
        let before = latest(moments.drop_last(), floor);
        if moments.last() > before {
            moments.last()
        } else {
            before
        }
    }
}

/// The latest of `floor` and the moments is no earlier than any of them.
pub proof fn lemma_latest_bounds(moments: Seq<i64>, floor: i64)
    ensures
        latest(moments, floor) >= floor,
        forall|k: int| 0 <= k < moments.len() ==> latest(moments, floor) >= #[trigger] moments[k],
    decreases moments.len(),
{
    if moments.len() > 0 {
        lemma_latest_bounds(moments.drop_last(), floor);
        assert forall|k: int| 0 <= k < moments.len() implies latest(moments, floor) >= #[trigger] moments[k] by {
            if k < moments.len() - 1 {
                assert(moments.drop_last()[k] == moments[k]);
            }
        }
    }
}

/// Repaying a loan in full before its term ends earns nothing at once: while
/// any installment is still to fall due, the rise that the repayment
/// schedules lies after the moment of payment, so the term-end sweep run at
/// that moment does not pay it.
pub proof fn law_early_repayment_defers_rise(due_dates: Seq<i64>, now: i64, k: int)
    requires
        0 <= k < due_dates.len(),
        due_dates[k] > now,
    ensures
        latest(due_dates, now) > now,
{
    lemma_latest_bounds(due_dates, now);
}

/// When a loan repaid in full earns its score rise: at its term end, the due
/// date of its last installment, so paying early neither forfeits the rise
/// nor brings it forward; a loan closed after its term end earns it on
/// closing. The rise itself is paid by the term-end sweep, never on the
/// payment that closes the loan.
pub fn score_rise_at(due_dates: &[i64], closed_at: i64) -> (r: i64)
    ensures
        r == latest(due_dates@, closed_at),
        r >= closed_at,
        forall|k: int| 0 <= k < due_dates@.len() ==> r >= #[trigger] due_dates@[k],
{
    let mut at = closed_at;
    let mut i: usize = 0;
    while i < due_dates.len()
        invariant
            i <= due_dates@.len(),
            at == latest(due_dates@.take(i as int), closed_at),
            at >= closed_at,
            forall|k: int| 0 <= k < i ==> at >= #[trigger] due_dates@[k],
        decreases due_dates@.len() - i,
    {
        assert(due_dates@.take(i as int + 1).drop_last() =~= due_dates@.take(i as int));
        assert(due_dates@.take(i as int + 1).last() == due_dates@[i as int]);
        if due_dates[i] > at {
            at = due_dates[i];
        }
        i = i + 1;
    }
    assert(due_dates@.take(due_dates@.len() as int) =~= due_dates@);
    at
}

} // verus!
