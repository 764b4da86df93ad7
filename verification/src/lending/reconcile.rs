//! Settling a defaulted loan after the fact: whether a loan may take a
//! payment at all, how a settlement payment is shared out (guarantors first,
//! then the reserve, then back to the borrower), and what accepting the
//! settlement does.

use vstd::prelude::*;
use vstd::string::{StrSliceExecFns, StringExecFns};

use super::waterfall::{
    leftover, lemma_waterfall_conserves, room, share, shares_before, waterfall,
};
use crate::Refusal;
use crate::score::{DEFAULT_SETTLED, lemma_codes_distinct, outcome, outcome_score};
use crate::text::{str_eq, trim, trimmed};

verus! {

/// Whether a loan can take a payment, and on what footing.
#[derive(Clone, Copy, Debug, PartialEq, Eq)]
pub struct Payable {
    /// A reopened default being settled, not an ordinary running loan.
    pub settling: bool,
    /// What is still owed on a settlement; 0 on an ordinary loan.
    pub arrears: i64,
}

/// Asked before any money is captured, while refusing is still free. `loan` is
/// whether the caller is the borrower, and the loan's status; `owed` is what
/// the default's guarantors and reserve are still out of pocket. A settling
/// loan with nothing left owed takes no payment.
pub fn check_payable(loan: Option<(bool, &str)>, owed: i64) -> (r: Result<Payable, Refusal>)
    ensures
        r == (match loan {
            None => Err(Refusal { status: 404, message: "Loan not found" }),
            Some((mine, status)) => if !mine {
                Err(Refusal { status: 404, message: "Loan not found" })
            } else if status@ == "active"@ {
                Ok(Payable { settling: false, arrears: 0 })
            } else if status@ != "reconciling"@ {
                Err(Refusal { status: 409, message: "This loan is not accepting payments" })
            } else if owed <= 0 {
                Err(
                    Refusal {
                        status: 409,
                        message: "There's nothing left to settle on this loan — an administrator just needs to confirm it",
                    },
                )
            } else {
                Ok(Payable { settling: true, arrears: owed })
            },
        }),
{
    match loan {
        None => Err(Refusal { status: 404, message: "Loan not found" }),
        Some((mine, status)) => {
            if !mine {
                Err(Refusal { status: 404, message: "Loan not found" })
            } else if str_eq(status, "active") {
                Ok(Payable { settling: false, arrears: 0 })
            } else if !str_eq(status, "reconciling") {
                Err(Refusal { status: 409, message: "This loan is not accepting payments" })
            } else if owed <= 0 {
                Err(
                    Refusal {
                        status: 409,
                        message: "There's nothing left to settle on this loan — an administrator just needs to confirm it",
                    },
                )
            } else {
                Ok(Payable { settling: true, arrears: owed })
            }
        },
    }
}

/// A guarantor's deposit taken to cover the default: what was taken, what has
/// been handed back, and whether it can still be traced to a member.
#[derive(Clone, Copy, Debug, PartialEq, Eq)]
pub struct ChargedGuarantor {
    pub amount: i64,
    pub refunded: i64,
    pub has_member: bool,
}

/// What the reserve absorbed for the default, and what it has had back.
#[derive(Clone, Copy, Debug, PartialEq, Eq)]
pub struct Absorbed {
    pub amount: i64,
    pub refunded: i64,
}

/// What each charged guarantor is still owed back; nothing when the charge
/// cannot be traced to a member.
pub open spec fn guarantor_owed(gs: Seq<ChargedGuarantor>) -> Seq<i64> {
    Seq::new(
        gs.len(),
        |k: int|
            if gs[k].has_member {
                (gs[k].amount - gs[k].refunded) as i64
            } else {
                0
            },
    )
}

/// What the reserve is still owed back, charge by charge.
pub open spec fn reserve_owed(rs: Seq<Absorbed>) -> Seq<i64> {
    Seq::new(rs.len(), |k: int| (rs[k].amount - rs[k].refunded) as i64)
}

/// How one settlement payment was shared out.
#[derive(Clone, Debug, PartialEq, Eq)]
pub struct Settlement {
    pub to_guarantors: i64,
    pub to_reserve: i64,
    /// Whatever survives both becomes a deposit lot for the borrower.
    pub to_borrower: i64,
    /// Each charged guarantor's refund, in the order given.
    pub guarantor_refunds: Vec<i64>,
    /// Each reserve charge's refund, in the order given.
    pub reserve_refunds: Vec<i64>,
}

/// Shares a settlement payment out: guarantors made whole first, in the order
/// they were charged, then the reserve, then anything left back to the
/// borrower. Nothing is lost: the three parts add up to what was received.
pub fn settle_split(guarantors: &[ChargedGuarantor], reserve: &[Absorbed], received: i64) -> (r: Settlement)
    requires
        received >= 0,
        forall|k: int|
            0 <= k < guarantors@.len() ==> i64::MIN <= #[trigger] guarantors@[k].amount
                - guarantors@[k].refunded <= i64::MAX,
        forall|k: int|
            0 <= k < reserve@.len() ==> i64::MIN <= #[trigger] reserve@[k].amount
                - reserve@[k].refunded <= i64::MAX,
    ensures
        r.guarantor_refunds@.len() == guarantors@.len(),
        forall|k: int|
            0 <= k < guarantors@.len() ==> #[trigger] r.guarantor_refunds@[k] == share(
                guarantor_owed(guarantors@),
                received as int,
                k,
            ),
        r.to_guarantors == shares_before(
            guarantor_owed(guarantors@),
            received as int,
            guarantors@.len() as int,
        ),
        r.reserve_refunds@.len() == reserve@.len(),
        forall|k: int|
            0 <= k < reserve@.len() ==> #[trigger] r.reserve_refunds@[k] == share(
                reserve_owed(reserve@),
                leftover(guarantor_owed(guarantors@), received as int),
                k,
            ),
        r.to_reserve == shares_before(
            reserve_owed(reserve@),
            leftover(guarantor_owed(guarantors@), received as int),
            reserve@.len() as int,
        ),
        r.to_borrower == leftover(
            reserve_owed(reserve@),
            leftover(guarantor_owed(guarantors@), received as int),
        ),
        r.to_guarantors + r.to_reserve + r.to_borrower == received,
        r.to_guarantors >= 0,
        r.to_reserve >= 0,
        r.to_borrower >= 0,
{
    let mut gcaps: Vec<i64> = Vec::new();
    let mut i: usize = 0;
    while i < guarantors.len()
        invariant
            i <= guarantors@.len(),
            gcaps@.len() == i,
            forall|k: int|
                0 <= k < guarantors@.len() ==> i64::MIN <= #[trigger] guarantors@[k].amount
                    - guarantors@[k].refunded <= i64::MAX,
            forall|k: int| 0 <= k < i ==> #[trigger] gcaps@[k] == guarantor_owed(guarantors@)[k],
        decreases guarantors@.len() - i,
    {
        let g = guarantors[i];
        assert(i64::MIN <= guarantors@[i as int].amount - guarantors@[i as int].refunded);
        gcaps.push(
            if g.has_member {
                g.amount - g.refunded
            } else {
                0
            },
        );
        i = i + 1;
    }
    assert(gcaps@ =~= guarantor_owed(guarantors@));
    let mut rcaps: Vec<i64> = Vec::new();
    let mut j: usize = 0;
    while j < reserve.len()
        invariant
            j <= reserve@.len(),
            rcaps@.len() == j,
            forall|k: int|
                0 <= k < reserve@.len() ==> i64::MIN <= #[trigger] reserve@[k].amount
                    - reserve@[k].refunded <= i64::MAX,
            forall|k: int| 0 <= k < j ==> #[trigger] rcaps@[k] == reserve_owed(reserve@)[k],
        decreases reserve@.len() - j,
    {
        let a = reserve[j];
        assert(i64::MIN <= reserve@[j as int].amount - reserve@[j as int].refunded);
        rcaps.push(a.amount - a.refunded);
        j = j + 1;
    }
    assert(rcaps@ =~= reserve_owed(reserve@));
    let (grefunds, after_guarantors) = waterfall(gcaps.as_slice(), received);
    let (rrefunds, to_borrower) = waterfall(rcaps.as_slice(), after_guarantors);
    proof {
        lemma_waterfall_conserves(gcaps@, received as int);
        lemma_waterfall_conserves(rcaps@, after_guarantors as int);
    }
    let to_guarantors = received - after_guarantors;
    let to_reserve = after_guarantors - to_borrower;
    Settlement {
        to_guarantors,
        to_reserve,
        to_borrower,
        guarantor_refunds: grefunds,
        reserve_refunds: rrefunds,
    }
}

/// A reason as it is recorded: trimmed, and at most its first 200 characters.
pub open spec fn recorded_reason(reason: Seq<char>) -> Seq<char> {
    let t = trimmed(reason);
    if t.len() > 200 {
        t.take(200)
    } else {
        t
    }
}

pub fn reason_note(reason: &str) -> (r: String)
    ensures
        r@ == recorded_reason(reason@),
{
    let t = trim(reason);
    let n = t.unicode_len();
    let end: usize = if n > 200 {
        200
    } else {
        n
    };
    let kept = t.substring_char(0, end);
    proof {
        if n <= 200 {
            assert(t@.subrange(0, end as int) =~= t@);
        }
    }
    String::from_str(kept)
}

/// Reopening a defaulted loan for settlement: it needs a reason (recorded
/// against the admin), a default whose recovery has finished, and a borrower
/// with no other open loan or settlement. `loan` is the status and whether
/// the loan has been closed.
pub fn check_reopen(reason: &str, loan: Option<(&str, bool)>, borrower_has_open: bool) -> (r: Result<String, Refusal>)
    ensures
        r is Ok ==> r->Ok_0@ == recorded_reason(reason@),
        recorded_reason(reason@).len() == 0 ==> r == Err::<String, Refusal>(
            Refusal {
                status: 422,
                message: "Give a reason — reopening a defaulted loan is recorded against your account",
            },
        ),
        recorded_reason(reason@).len() > 0 ==> match loan {
            None => r == Err::<String, Refusal>(Refusal { status: 404, message: "No such loan" }),
            Some((status, closed)) => if status@ != "defaulted"@ {
                r == Err::<String, Refusal>(
                    Refusal {
                        status: 409,
                        message: "Only a defaulted loan can be reopened for settlement",
                    },
                )
            } else if !closed {
                r == Err::<String, Refusal>(
                    Refusal {
                        status: 409,
                        message: "This default is still being recovered — sign the queued vault movements first, then reopen it",
                    },
                )
            } else if borrower_has_open {
                r == Err::<String, Refusal>(
                    Refusal {
                        status: 409,
                        message: "This borrower already has an open loan or another settlement in progress",
                    },
                )
            } else {
                r is Ok
            },
        },
{
    let note = reason_note(reason);
    if note.as_str().unicode_len() == 0 {
        return Err(
            Refusal {
                status: 422,
                message: "Give a reason — reopening a defaulted loan is recorded against your account",
            },
        );
    }
    match loan {
        None => Err(Refusal { status: 404, message: "No such loan" }),
        Some((status, closed)) => {
            if !str_eq(status, "defaulted") {
                Err(
                    Refusal {
                        status: 409,
                        message: "Only a defaulted loan can be reopened for settlement",
                    },
                )
            } else if !closed {
                Err(
                    Refusal {
                        status: 409,
                        message: "This default is still being recovered — sign the queued vault movements first, then reopen it",
                    },
                )
            } else if borrower_has_open {
                Err(
                    Refusal {
                        status: 409,
                        message: "This borrower already has an open loan or another settlement in progress",
                    },
                )
            } else {
                Ok(note)
            }
        },
    }
}

/// Marking a settled loan paid: only a reopened loan, and only once nothing
/// is owed any more.
pub fn check_mark_paid(status: Option<&str>, owed: i64) -> (r: Result<(), Refusal>)
    ensures
        r == (match status {
            None => Err(Refusal { status: 404, message: "No such loan" }),
            Some(s) => if s@ != "reconciling"@ {
                Err(
                    Refusal {
                        status: 409,
                        message: "Reopen the loan for settlement before marking it paid",
                    },
                )
            } else if owed > 0 {
                Err(
                    Refusal {
                        status: 409,
                        message: "There are still arrears on this loan — it can't be marked paid until they're settled",
                    },
                )
            } else {
                Ok(())
            },
        }),
{
    match status {
        None => Err(Refusal { status: 404, message: "No such loan" }),
        Some(s) => {
            if !str_eq(s, "reconciling") {
                Err(
                    Refusal {
                        status: 409,
                        message: "Reopen the loan for settlement before marking it paid",
                    },
                )
            } else if owed > 0 {
                Err(
                    Refusal {
                        status: 409,
                        message: "There are still arrears on this loan — it can't be marked paid until they're settled",
                    },
                )
            } else {
                Ok(())
            }
        },
    }
}

/// What accepting a settlement did.
#[derive(Clone, Copy, Debug, PartialEq, Eq)]
pub struct Reconciled {
    /// The borrower's score after the default penalty was returned.
    pub score: Option<i16>,
    /// The vault release was queued for signing.
    pub queued_on_chain: bool,
    /// Set when the borrower's coins were already seized on chain.
    pub note: Option<&'static str>,
    pub message: &'static str,
}

pub open spec fn restored(old_score: Option<i16>) -> Option<i16> {
    match old_score {
        Some(s) => Some(outcome_score(DEFAULT_SETTLED@, s as int) as i16),
        None => None,
    }
}

/// Accepting a settlement returns the default's score penalty, and releases
/// the borrower's coins when they are still locked in the vault; coins
/// already seized cannot come back from here. `position` is the status of the
/// loan's XLM position, if it has one.
pub fn reconciled(old_score: Option<i16>, position: Option<&str>) -> (r: Reconciled)
    requires
        old_score matches Some(s) ==> s <= 32_747,
    ensures
        r.score == restored(old_score),
        r.queued_on_chain == (position matches Some(p) && p@ == "locked"@),
        r.note == (if position matches Some(p) && p@ == "seized"@ {
            Some(
                "The borrower's XLM was already seized on-chain — settling here can't return it. Send the coins back manually if that was agreed.",
            )
        } else {
            None::<&'static str>
        }),
        r.message == (if r.queued_on_chain {
            "Settled. Sign the queued vault movements to return the borrower's collateral — they can apply again now"
        } else {
            "Settled — the borrower's standing is restored and they can apply again"
        }),
{
    proof {
        lemma_codes_distinct();
    }
    let score = match old_score {
        Some(s) => Some(outcome(DEFAULT_SETTLED, s).score_to),
        None => None,
    };
    proof {
        reveal_strlit("locked");
        reveal_strlit("seized");
        assert("locked"@[0] != "seized"@[0]);
    }
    let mut queued_on_chain = false;
    let mut note: Option<&'static str> = None;
    if let Some(p) = position {
        if str_eq(p, "locked") {
            queued_on_chain = true;
        } else if str_eq(p, "seized") {
            note = Some(
                "The borrower's XLM was already seized on-chain — settling here can't return it. Send the coins back manually if that was agreed.",
            );
        }
    }
    let message = if queued_on_chain {
        "Settled. Sign the queued vault movements to return the borrower's collateral — they can apply again now"
    } else {
        "Settled — the borrower's standing is restored and they can apply again"
    };
    Reconciled { score, queued_on_chain, note, message }
}

} // verus!
