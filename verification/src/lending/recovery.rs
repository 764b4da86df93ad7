//! A declared default and its recovery: the shortfall is taken from the
//! borrower's own collateral lots, then their free deposits, then (once any
//! locked coins are seized) the guarantors' pledges, and the reserve absorbs
//! whatever is left.

use vstd::prelude::*;

use super::ledger::{Posting, balanced, lemma_posted_total_push, posted_total};
use super::lots::{MemberLot, Seizure, change_of, member_amounts, seize, tally, tally_total};
use super::waterfall::{share, shares_before};
use crate::Refusal;
use crate::score::{LOAN_DEFAULTED, lemma_codes_distinct, outcome, outcome_score};
use crate::text::str_eq;

verus! {

/// Where a recovery stands.
#[derive(Clone, Copy, Debug, PartialEq, Eq)]
pub struct Progress {
    /// What is still not covered.
    pub shortfall: i64,
    /// Recovery paused until the borrower's locked coins are seized.
    pub awaiting_seizure: bool,
}

/// Only a disbursed, running loan can be declared in default.
pub fn check_declarable(status: Option<&str>) -> (r: Result<(), Refusal>)
    ensures
        r == (match status {
            None => Err(Refusal { status: 404, message: "No such loan" }),
            Some(s) => if s@ != "active"@ {
                Err(Refusal { status: 409, message: "Only a disbursed, running loan can be defaulted" })
            } else {
                Ok(())
            },
        }),
{
    match status {
        None => Err(Refusal { status: 404, message: "No such loan" }),
        Some(s) => {
            if !str_eq(s, "active") {
                Err(Refusal { status: 409, message: "Only a disbursed, running loan can be defaulted" })
            } else {
                Ok(())
            }
        },
    }
}

/// Recovery runs only on a loan in default.
pub fn check_recoverable(status: Option<&str>) -> (r: Result<(), Refusal>)
    ensures
        r == (match status {
            None => Err(Refusal { status: 404, message: "No such loan" }),
            Some(s) => if s@ != "defaulted"@ {
                Err(Refusal { status: 409, message: "This loan is not in default" })
            } else {
                Ok(())
            },
        }),
{
    match status {
        None => Err(Refusal { status: 404, message: "No such loan" }),
        Some(s) => {
            if !str_eq(s, "defaulted") {
                Err(Refusal { status: 409, message: "This loan is not in default" })
            } else {
                Ok(())
            }
        },
    }
}

/// The borrower's score after a default: the penalty, floored at zero.
pub fn penalised(old_score: i16) -> (r: i16)
    requires
        old_score >= -32_743,
    ensures
        r == outcome_score(LOAN_DEFAULTED@, old_score as int),
{
    proof {
        lemma_codes_distinct();
    }
    outcome(LOAN_DEFAULTED, old_score).score_to
}

/// The books for one recovery step: the amount lands in the account that
/// covered it, and the loan receivable is written down by the same amount.
pub fn recovery_postings(account: &'static str, amount: i64) -> (r: Vec<Posting>)
    requires
        amount > i64::MIN,
    ensures
        r@ == seq![
            Posting { account, amount },
            Posting { account: "loans_receivable", amount: (-amount) as i64 },
        ],
        balanced(r@),
{
    let mut ps: Vec<Posting> = Vec::new();
    proof {
        lemma_posted_total_push(ps@, Posting { account, amount });
    }
    ps.push(Posting { account, amount });
    proof {
        lemma_posted_total_push(ps@, Posting { account: "loans_receivable", amount: (-amount) as i64 });
    }
    ps.push(Posting { account: "loans_receivable", amount: -amount });
    assert(ps@ =~= seq![
        Posting { account, amount },
        Posting { account: "loans_receivable", amount: (-amount) as i64 },
    ]);
    assert(posted_total(Seq::<Posting>::empty()) == 0);
    ps
}

/// Seized coins cover the outstanding principal first; anything they are worth
/// beyond it goes back to the borrower as a deposit.
pub fn split_seizure(value: i64, outstanding: i64) -> (r: (i64, i64))
    requires
        value <= outstanding || value - outstanding <= i64::MAX,
    ensures
        r.0 == (if value < outstanding {
            value
        } else {
            outstanding
        }),
        r.0 + r.1 == value,
        r.1 >= 0,
{
    let applied = if value < outstanding {
        value
    } else {
        outstanding
    };
    (applied, value - applied)
}

/// With coins still locked in the vault, recovery waits for their seizure
/// before charging anyone's guarantee.
pub fn hold_for_seizure(locked_position: bool, shortfall: i64) -> (r: Option<Progress>)
    ensures
        r == (if locked_position && shortfall > 0 {
            Some(Progress { shortfall, awaiting_seizure: true })
        } else {
            None
        }),
{
    if locked_position && shortfall > 0 {
        Some(Progress { shortfall, awaiting_seizure: true })
    } else {
        None
    }
}

/// The last step: the reserve absorbs what is left, and the recovery is
/// settled. Returns what the reserve takes.
pub fn reserve_absorbs(shortfall: i64) -> (r: (i64, Progress))
    ensures
        r.0 == (if shortfall > 0 {
            shortfall
        } else {
            0
        }),
        r.1 == (Progress { shortfall: if shortfall > 0 {
            0
        } else {
            shortfall
        }, awaiting_seizure: false }),
{
    if shortfall > 0 {
        (shortfall, Progress { shortfall: 0, awaiting_seizure: false })
    } else {
        (0, Progress { shortfall, awaiting_seizure: false })
    }
}

/// What the admin is told after declaring a default.
pub fn default_message(progress: Progress) -> (r: &'static str)
    ensures
        r == (if progress.awaiting_seizure {
            "Default recorded. Sign the queued vault movements to seize the collateral — guarantors are charged only for what the coins don't cover"
        } else {
            "Default recorded and recovery settled"
        }),
{
    if progress.awaiting_seizure {
        "Default recorded. Sign the queued vault movements to seize the collateral — guarantors are charged only for what the coins don't cover"
    } else {
        "Default recorded and recovery settled"
    }
}

/// What `seize` promises of a seizure of `lots` up to `limit`.
pub open spec fn seized(lots: Seq<MemberLot>, limit: int, s: Seizure) -> bool {
    &&& s.changes@.len() == lots.len()
    &&& forall|k: int| 0 <= k < lots.len() ==> #[trigger] s.changes@[k] == change_of(
        lots[k].amount,
        share(member_amounts(lots), limit, k),
    )
    &&& s.by_member@ == tally(lots, limit, lots.len() as int)
    &&& s.total == shares_before(member_amounts(lots), limit, lots.len() as int)
    &&& tally_total(s.by_member@) == s.total
    &&& 0 <= s.total <= limit
}

/// What one step of the waterfall took: nothing when it was not reached.
pub open spec fn step_taken(step: Option<Seizure>) -> int {
    match step {
        Some(s) => s.total as int,
        None => 0,
    }
}

/// Whether a step ran exactly when something was still owed, and seized
/// what was owed from its lots.
pub open spec fn step_ran(lots: Seq<MemberLot>, owed: int, step: Option<Seizure>) -> bool {
    match step {
        Some(s) => owed > 0 && seized(lots, owed, s),
        None => owed <= 0,
    }
}

/// The whole recovery waterfall on a defaulted loan, as far as the facts
/// allow: the borrower's collateral lots, then their free deposits; a pause
/// while their coins are still locked in the vault; then the guarantors'
/// pledged lots; and the reserve absorbs what is left.
#[derive(Clone, Debug)]
pub struct RecoveryPlan {
    pub from_backing: Option<Seizure>,
    pub from_free: Option<Seizure>,
    pub from_pledged: Option<Seizure>,
    /// What the reserve absorbs.
    pub reserve: i64,
    pub progress: Progress,
}

fn seize_step(lots: &[MemberLot], owed: i64) -> (r: Option<Seizure>)
    requires
        forall|k: int| 0 <= k < lots@.len() ==> #[trigger] lots@[k].amount > 0,
    ensures
        step_ran(lots@, owed as int, r),
{
    if owed > 0 {
        Some(seize(lots, owed))
    } else {
        None
    }
}

fn taken_by(step: &Option<Seizure>) -> (r: i64)
    requires
        step matches Some(s) ==> s.total >= 0,
    ensures
        r == step_taken(*step),
{
    match step {
        Some(s) => s.total,
        None => 0,
    }
}

/// Plans the recovery of a shortfall. The borrower's own money is always
/// taken first; no guarantor is charged while the borrower's coins are
/// still locked, nor before the borrower's deposits are exhausted; the
/// reserve takes only what the guarantors could not cover; and every
/// centavo of the shortfall is either taken, absorbed, or still owed.
pub fn plan_recovery(
    shortfall: i64,
    backing: &[MemberLot],
    free: &[MemberLot],
    locked_position: bool,
    pledged: &[MemberLot],
) -> (r: RecoveryPlan)
    requires
        forall|k: int| 0 <= k < backing@.len() ==> #[trigger] backing@[k].amount > 0,
        forall|k: int| 0 <= k < free@.len() ==> #[trigger] free@[k].amount > 0,
        forall|k: int| 0 <= k < pledged@.len() ==> #[trigger] pledged@[k].amount > 0,
    ensures
        ({
            let s0 = shortfall as int;
            let s1 = s0 - step_taken(r.from_backing);
            let s2 = s1 - step_taken(r.from_free);
            let s3 = s2 - step_taken(r.from_pledged);
            &&& step_ran(backing@, s0, r.from_backing)
            &&& step_ran(free@, s1, r.from_free)
            &&& (if locked_position && s2 > 0 {
                &&& r.from_pledged is None
                &&& r.reserve == 0
                &&& r.progress == Progress { shortfall: s2 as i64, awaiting_seizure: true }
            } else {
                &&& step_ran(pledged@, s2, r.from_pledged)
                &&& r.reserve == (if s3 > 0 { s3 } else { 0 })
                &&& r.progress == Progress { shortfall: (if s3 > 0 { 0 } else { s3 }) as i64, awaiting_seizure: false }
            })
            &&& s0 > 0 ==> step_taken(r.from_backing) + step_taken(r.from_free) + step_taken(r.from_pledged)
                + r.reserve + r.progress.shortfall == s0
            &&& r.from_pledged is Some ==> !locked_position && step_taken(r.from_backing) + step_taken(r.from_free) < s0
            &&& r.reserve > 0 ==> step_taken(r.from_backing) + step_taken(r.from_free) + step_taken(r.from_pledged) < s0
        }),
{
    let from_backing = seize_step(backing, shortfall);
    let s1 = shortfall - taken_by(&from_backing);
    let from_free = seize_step(free, s1);
    let s2 = s1 - taken_by(&from_free);
    if let Some(progress) = hold_for_seizure(locked_position, s2) {
        return RecoveryPlan { from_backing, from_free, from_pledged: None, reserve: 0, progress };
    }
    let from_pledged = seize_step(pledged, s2);
    let s3 = s2 - taken_by(&from_pledged);
    let (reserve, progress) = reserve_absorbs(s3);
    RecoveryPlan { from_backing, from_free, from_pledged, reserve, progress }
}

} // verus!
