//! Payment intents: every order and checkout is one the engine asked for,
//! for the amount it decided, and money that arrives is applied only against
//! the intent it was created as. This is the decision half of each step:
//! reserve, claim, consume and refund.

use vstd::prelude::*;

use crate::Refusal;
use crate::domain::schedule::{ScheduleRow, row_in_range, row_owed};
use crate::domain::{deposit_allowance, next_installment_due};
use crate::domain::limits::{DepositLimitsFor, allowance_of};
use crate::text::str_eq;

verus! {

/// How long a started payment stays payable, in seconds.
pub const INTENT_TTL_SECS: i64 = 3600;

/// An intent claimed for capture.
#[derive(Clone, Copy, Debug, PartialEq, Eq)]
pub struct Claimed {
    pub id: u128,
    pub rail: &'static str,
    pub loan_id: Option<u128>,
    /// What the member is charged, gross.
    pub amount: i64,
    /// Repayments: exactly what the payment applies to the loan.
    pub applies: Option<i64>,
}

/// What claiming found.
#[derive(Clone, Copy, Debug, PartialEq, Eq)]
pub enum Claim {
    /// Capture it and apply it.
    Proceed(Claimed),
    /// A Stripe session whose intent was superseded or expired: it may still
    /// have been paid, and is refunded if so.
    Stale(Claimed),
}

/// One payment intent, as read under its lock.
#[derive(Clone, Debug)]
pub struct IntentRow {
    pub id: u128,
    pub owner: u128,
    pub purpose: String,
    pub loan_id: Option<u128>,
    pub amount: i64,
    pub applies: Option<i64>,
    pub rail: String,
    pub status: String,
    pub expires_at: i64,
}

/// What a claim does: refuse; mark the intent expired and refuse; or
/// answer with a claim, moving a live intent to `capturing` first.
#[derive(Clone, Copy, Debug, PartialEq, Eq)]
pub enum ClaimStep {
    Refuse(Refusal),
    ExpireAndRefuse(Refusal),
    Answer(Claim),
}

pub open spec fn claimed_of(row: IntentRow, rail: &'static str) -> Claimed {
    Claimed { id: row.id, rail, loan_id: row.loan_id, amount: row.amount, applies: row.applies }
}

/// How a claim on the intent behind a reference goes, for the member
/// presenting it on a rail for a purpose: refused unless the intent exists,
/// is theirs, and was started for that purpose on that rail; then by its
/// status: consumed, refunded or not yet open is refused; superseded or
/// expired is stale on Stripe and refused on PayPal; an open PayPal order
/// past its time is expired and refused; anything else proceeds.
pub open spec fn claim_step_of(row: Option<IntentRow>, user_id: u128, rail: &'static str, purpose: Seq<char>, now: i64) -> ClaimStep {
    match row {
        None => ClaimStep::Refuse(Refusal {
            status: 422,
            message: "That payment wasn't started here — please start a new one",
        }),
        Some(r) => if r.owner != user_id {
            ClaimStep::Refuse(Refusal { status: 422, message: "That payment doesn't belong to this account" })
        } else if r.purpose@ != purpose || r.rail@ != rail@ {
            ClaimStep::Refuse(Refusal { status: 422, message: "That payment was started for something else" })
        } else if r.status@ == "consumed"@ {
            ClaimStep::Refuse(Refusal { status: 409, message: "This payment was already processed" })
        } else if r.status@ == "refunded"@ || r.status@ == "refund_failed"@ {
            ClaimStep::Refuse(Refusal { status: 409, message: "This payment was refunded" })
        } else if r.status@ == "reserved"@ {
            ClaimStep::Refuse(Refusal { status: 409, message: "This payment isn't ready yet" })
        } else if r.status@ == "superseded"@ || r.status@ == "expired"@ {
            if rail@ == "stripe"@ {
                ClaimStep::Answer(Claim::Stale(claimed_of(r, rail)))
            } else {
                ClaimStep::Refuse(Refusal {
                    status: 409,
                    message: "This payment was replaced by a newer one or expired — nothing was charged. Please start again",
                })
            }
        } else if r.status@ == "open"@ && rail@ == "paypal"@ && r.expires_at < now {
            ClaimStep::ExpireAndRefuse(Refusal {
                status: 409,
                message: "This payment expired — nothing was charged. Please start again",
            })
        } else {
            ClaimStep::Answer(Claim::Proceed(claimed_of(r, rail)))
        },
    }
}

/// Decides a claim.
pub fn claim_step(row: Option<&IntentRow>, user_id: u128, rail: &'static str, purpose: &str, now: i64) -> (r: ClaimStep)
    ensures
        r == claim_step_of(match row { Some(x) => Some(*x), None => None }, user_id, rail, purpose@, now),
{
    let r = match row {
        None => {
            return ClaimStep::Refuse(Refusal {
                status: 422,
                message: "That payment wasn't started here — please start a new one",
            });
        },
        Some(r) => r,
    };
    if r.owner != user_id {
        return ClaimStep::Refuse(Refusal { status: 422, message: "That payment doesn't belong to this account" });
    }
    if !str_eq(r.purpose.as_str(), purpose) || !str_eq(r.rail.as_str(), rail) {
        return ClaimStep::Refuse(Refusal { status: 422, message: "That payment was started for something else" });
    }
    let claimed = Claimed { id: r.id, rail, loan_id: r.loan_id, amount: r.amount, applies: r.applies };
    let status = r.status.as_str();
    if str_eq(status, "consumed") {
        ClaimStep::Refuse(Refusal { status: 409, message: "This payment was already processed" })
    } else if str_eq(status, "refunded") || str_eq(status, "refund_failed") {
        ClaimStep::Refuse(Refusal { status: 409, message: "This payment was refunded" })
    } else if str_eq(status, "reserved") {
        ClaimStep::Refuse(Refusal { status: 409, message: "This payment isn't ready yet" })
    } else if str_eq(status, "superseded") || str_eq(status, "expired") {
        if str_eq(rail, "stripe") {
            ClaimStep::Answer(Claim::Stale(claimed))
        } else {
            ClaimStep::Refuse(Refusal {
                status: 409,
                message: "This payment was replaced by a newer one or expired — nothing was charged. Please start again",
            })
        }
    } else if str_eq(status, "open") && str_eq(rail, "paypal") && r.expires_at < now {
        ClaimStep::ExpireAndRefuse(Refusal {
            status: 409,
            message: "This payment expired — nothing was charged. Please start again",
        })
    } else {
        ClaimStep::Answer(Claim::Proceed(claimed))
    }
}

/// Whether `r` is what a repayment must be on these schedule rows: the
/// earliest installment still owed, with everything owed on it; none when
/// every installment is settled.
pub open spec fn next_due_is(rows: Seq<ScheduleRow>, r: Option<(i16, i64)>) -> bool {
    &&& (r is None <==> forall|i: int| 0 <= i < rows.len() ==> row_owed(#[trigger] rows[i]) <= 0)
    &&& (r matches Some(due) ==> exists|i: int|
        0 <= i < rows.len() && row_owed(rows[i]) > 0 && due.0 == rows[i].0 && due.1 == row_owed(rows[i])
            && forall|j: int| 0 <= j < i ==> row_owed(#[trigger] rows[j]) <= 0)
}

pub open spec fn loan_not_found() -> Refusal {
    Refusal { status: 404, message: "Loan not found" }
}

/// What a loan owes on its next payment: exactly the earliest unpaid
/// installment of a running loan, or the arrears of one being settled.
/// `rows` is the schedule of a running loan and `arrears` what a settling
/// one still owes; each is read only for its status. A loan that is not the
/// member's reads as not found; one that takes no money, or owes nothing,
/// is refused.
pub fn amount_due(loan: Option<(u128, &str)>, user_id: u128, rows: &[ScheduleRow], arrears: i64) -> (r: Result<(i64, Option<i16>), Refusal>)
    requires
        forall|i: int| 0 <= i < rows@.len() ==> row_in_range(#[trigger] rows@[i]),
    ensures
        match loan {
            None => r == Err::<(i64, Option<i16>), Refusal>(loan_not_found()),
            Some((borrower, status)) => if borrower != user_id {
                r == Err::<(i64, Option<i16>), Refusal>(loan_not_found())
            } else if status@ == "active"@ {
                match r {
                    Ok((owed, Some(n))) => next_due_is(rows@, Some((n, owed))),
                    Ok((_, None)) => false,
                    Err(e) => e == Refusal { status: 409, message: "Nothing is due on this loan" }
                        && next_due_is(rows@, None),
                }
            } else if status@ == "reconciling"@ {
                r == (if arrears <= 0 {
                    Err::<(i64, Option<i16>), Refusal>(Refusal {
                        status: 409,
                        message: "There's nothing left to settle on this loan — an administrator just needs to confirm it",
                    })
                } else {
                    Ok((arrears, None))
                })
            } else {
                r == Err::<(i64, Option<i16>), Refusal>(Refusal { status: 409, message: "This loan is not accepting payments" })
            },
        },
{
    let (borrower, status) = match loan {
        None => return Err(Refusal { status: 404, message: "Loan not found" }),
        Some(l) => l,
    };
    if borrower != user_id {
        return Err(Refusal { status: 404, message: "Loan not found" });
    }
    if str_eq(status, "active") {
        match next_installment_due(rows) {
            Some((installment, owed)) => Ok((owed, Some(installment))),
            None => Err(Refusal { status: 409, message: "Nothing is due on this loan" }),
        }
    } else if str_eq(status, "reconciling") {
        if arrears <= 0 {
            return Err(Refusal {
                status: 409,
                message: "There's nothing left to settle on this loan — an administrator just needs to confirm it",
            });
        }
        Ok((arrears, None))
    } else {
        Err(Refusal { status: 409, message: "This loan is not accepting payments" })
    }
}

/// A deposit below the policy minimum is refused before anything is held.
pub fn check_minimum(amount: i64, min_deposit: i64) -> (r: Result<(), Refusal>)
    ensures
        r == (if amount < min_deposit {
            Err(Refusal { status: 422, message: "That's below the minimum deposit" })
        } else {
            Ok(())
        }),
{
    if amount < min_deposit {
        return Err(Refusal { status: 422, message: "That's below the minimum deposit" });
    }
    Ok(())
}

/// A deposit past what the member's limits still allow is refused.
pub fn check_allowance(amount: i64, allowance: i64) -> (r: Result<(), Refusal>)
    ensures
        r == (if amount > allowance {
            Err(Refusal {
                status: 422,
                message: "That's more than your deposit limit allows right now — check your remaining limit and try a smaller amount",
            })
        } else {
            Ok(())
        }),
{
    if amount > allowance {
        return Err(Refusal {
            status: 422,
            message: "That's more than your deposit limit allows right now — check your remaining limit and try a smaller amount",
        });
    }
    Ok(())
}

/// A repayment is refused while another for the same loan is mid-capture.
pub fn check_not_capturing(capturing: bool) -> (r: Result<(), Refusal>)
    ensures
        r == (if capturing {
            Err(Refusal {
                status: 409,
                message: "A payment for this loan is already being processed — wait for it to finish",
            })
        } else {
            Ok(())
        }),
{
    if capturing {
        return Err(Refusal {
            status: 409,
            message: "A payment for this loan is already being processed — wait for it to finish",
        });
    }
    Ok(())
}

/// When a payment started at `now` stops being payable.
pub fn expires_at(now: i64) -> (r: i64)
    requires
        now <= i64::MAX - INTENT_TTL_SECS,
    ensures
        r == now + INTENT_TTL_SECS,
{
    now + INTENT_TTL_SECS
}

/// Whether an intent's status means it can no longer be applied.
pub fn is_stale(status: Option<&str>) -> (r: bool)
    ensures
        r == (match status {
            Some(s) => s@ == "superseded"@ || s@ == "expired"@,
            None => false,
        }),
{
    match status {
        Some(s) => str_eq(s, "superseded") || str_eq(s, "expired"),
        None => false,
    }
}

/// What a refund is recorded as, and what the member is told: the intent's
/// new status, the reason kept on it, and the answer.
pub fn refund_record(why: &str, error: Option<&str>) -> (r: (&'static str, String, Refusal))
    ensures
        match error {
            None => {
                &&& r.0 == "refunded"
                &&& r.1@ == why@
                &&& r.2 == Refusal {
                    status: 409,
                    message: "This payment no longer matched what was due, so it was refunded in full",
                }
            },
            Some(e) => {
                &&& r.0 == "refund_failed"
                &&& r.1@ == why@ + " — refund: "@ + e@
                &&& r.2 == Refusal {
                    status: 409,
                    message: "This payment no longer matched what was due and couldn't be refunded automatically — support has been alerted",
                }
            },
        },
{
    match error {
        None => (
            "refunded",
            String::from_str(why),
            Refusal { status: 409, message: "This payment no longer matched what was due, so it was refunded in full" },
        ),
        Some(e) => (
            "refund_failed",
            String::from_str(why).concat(" — refund: ").concat(e),
            Refusal {
                status: 409,
                message: "This payment no longer matched what was due and couldn't be refunded automatically — support has been alerted",
            },
        ),
    }
}

/// The Stripe pages among payments a newer one replaced: the ones that
/// could still be paid and must be closed.
pub open spec fn pages_to_close(superseded: Seq<(String, Option<String>)>) -> Seq<Seq<char>>
    decreases superseded.len(),
{
    if superseded.len() == 0 {
        Seq::empty()
    } else {
        let (rail, r) = superseded.last();
        let rest = pages_to_close(superseded.drop_last());
        if rail@ == "stripe"@ && r is Some {
            rest.push(r->0@)
        } else {
            rest
        }
    }
}

/// Picks the Stripe pages to close out of what a reservation superseded.
pub fn stripe_pages(superseded: &Vec<(String, Option<String>)>) -> (r: Vec<String>)
    ensures
        r@.len() == pages_to_close(superseded@).len(),
        forall|k: int| 0 <= k < r@.len() ==> (#[trigger] r@[k])@ == pages_to_close(superseded@)[k],
{
    let mut out: Vec<String> = Vec::new();
    let mut i: usize = 0;
    while i < superseded.len()
        invariant
            i <= superseded.len(),
            out@.len() == pages_to_close(superseded@.subrange(0, i as int)).len(),
            forall|k: int| 0 <= k < out@.len() ==> (#[trigger] out@[k])@ == pages_to_close(superseded@.subrange(0, i as int))[k],
        decreases superseded.len() - i,
    {
        assert(superseded@.subrange(0, i as int + 1).drop_last() =~= superseded@.subrange(0, i as int));
        let (rail, r) = &superseded[i];
        if str_eq(rail.as_str(), "stripe") {
            if let Some(s) = r {
                out.push(s.clone());
            }
        }
        i = i + 1;
    }
    assert(superseded@.subrange(0, superseded.len() as int) =~= superseded@);
    out
}

/// A member's deposit headroom right now.
#[derive(Clone, Copy, Debug, PartialEq, Eq)]
pub struct DepositHeadroom {
    pub limits: DepositLimitsFor,
    /// Gross deposits in the last day and the last thirty, counting those
    /// started and not yet finished.
    pub used_24h: i64,
    pub used_30d: i64,
    /// The whole deposit balance, plus deposits started and not yet finished.
    pub balance: i64,
    /// The largest deposit that may be started now.
    pub allowance: i64,
}

/// Counts deposits started and not yet finished against every limit, so two
/// checkouts opened at once cannot each fit under the same one.
pub fn deposit_headroom(limits: DepositLimitsFor, credited_24h: i64, credited_30d: i64, held: i64, pending: i64) -> (r: DepositHeadroom)
    requires
        i64::MIN <= credited_24h + pending <= i64::MAX,
        i64::MIN <= credited_30d + pending <= i64::MAX,
        i64::MIN <= held + pending <= i64::MAX,
        i64::MIN <= limits.daily - (credited_24h + pending) <= i64::MAX,
        i64::MIN <= limits.monthly - (credited_30d + pending) <= i64::MAX,
        i64::MIN <= limits.max_balance - (held + pending) <= i64::MAX,
    ensures
        r.limits == limits,
        r.used_24h == credited_24h + pending,
        r.used_30d == credited_30d + pending,
        r.balance == held + pending,
        r.allowance == allowance_of(limits, r.used_24h, r.used_30d, r.balance),
{
    let used_24h = credited_24h + pending;
    let used_30d = credited_30d + pending;
    let balance = held + pending;
    DepositHeadroom {
        limits,
        used_24h,
        used_30d,
        balance,
        allowance: deposit_allowance(limits, used_24h, used_30d, balance),
    }
}

/// How a payment interrupted mid-capture is finished once the provider
/// says it was charged: a repayment is applied to its loan, a deposit is
/// credited; anything else has no way to finish.
#[derive(Clone, Copy, Debug, PartialEq, Eq)]
pub enum Finish {
    Repay(u128),
    Deposit,
    Unfinishable,
}

pub fn finish_for(purpose: &str, loan_id: Option<u128>) -> (r: Finish)
    ensures
        r == (if purpose@ == "repay"@ && loan_id is Some {
            Finish::Repay(loan_id->0)
        } else if purpose@ == "deposit"@ {
            Finish::Deposit
        } else {
            Finish::Unfinishable
        }),
{
    if str_eq(purpose, "repay") {
        if let Some(loan) = loan_id {
            return Finish::Repay(loan);
        }
    }
    if str_eq(purpose, "deposit") {
        Finish::Deposit
    } else {
        Finish::Unfinishable
    }
}

/// What a Stripe session read back says about a stuck payment: paid, not
/// paid, or unknown. Only Stripe's own "not completed" means not paid; any
/// other failure leaves the payment for the next sweep.
pub fn stripe_session_outcome<T>(read: Result<T, &str>) -> (r: Result<Option<T>, ()>)
    ensures
        match read {
            Ok(x) => r == Ok::<Option<T>, ()>(Some(x)),
            Err(e) => if e@ == "Payment was not completed"@ {
                r == Ok::<Option<T>, ()>(None)
            } else {
                r == Err::<Option<T>, ()>(())
            },
        },
{
    match read {
        Ok(x) => Ok(Some(x)),
        Err(e) => if str_eq(e, "Payment was not completed") {
            Ok(None)
        } else {
            Err(())
        },
    }
}

} // verus!
