//! Withdrawing deposits: the request is checked and de-duplicated, the
//! member's withdrawable lots are consumed oldest first, and a payout that
//! fails later is refunded as fresh lots.

use vstd::prelude::*;

use super::lots::{LotChange, change_of};
use super::shared::{MAX_CENTAVOS, validate_centavos};
use super::waterfall::{leftover, lemma_waterfall_conserves, room, share, shares_before, waterfall};
use crate::Refusal;
use crate::text::str_eq;

verus! {

/// A withdrawal as requested: the amount, and whether it carries the request
/// key that makes a retry safe.
pub fn check_withdrawal(amount: i64, has_request_key: bool) -> (r: Result<i64, Refusal>)
    ensures
        r == (if amount <= 0 || amount > MAX_CENTAVOS {
            Err(Refusal { status: 422, message: "Invalid amount" })
        } else if !has_request_key {
            Err(
                Refusal {
                    status: 422,
                    message: "Missing withdrawal request key — refresh the page and try again",
                },
            )
        } else {
            Ok(amount)
        }),
{
    let amount = match validate_centavos(amount) {
        Ok(a) => a,
        Err(e) => return Err(e),
    };
    if !has_request_key {
        return Err(
            Refusal {
                status: 422,
                message: "Missing withdrawal request key — refresh the page and try again",
            },
        );
    }
    Ok(amount)
}

/// A retried request: `existing` is the amount of the withdrawal already
/// recorded under the same key, if any. The same amount replays the earlier
/// answer; a different one is refused.
pub fn replay_of(existing: Option<i64>, amount: i64) -> (r: Result<bool, Refusal>)
    ensures
        r == (match existing {
            None => Ok(false),
            Some(a) => if a != amount {
                Err(
                    Refusal {
                        status: 409,
                        message: "That withdrawal request was already used for a different amount",
                    },
                )
            } else {
                Ok(true)
            },
        }),
{
    match existing {
        None => Ok(false),
        Some(a) => {
            if a != amount {
                Err(
                    Refusal {
                        status: 409,
                        message: "That withdrawal request was already used for a different amount",
                    },
                )
            } else {
                Ok(true)
            }
        },
    }
}

/// The member must hold enough withdrawable deposit, and the pool enough free
/// cash, for the amount.
pub fn check_cover(withdrawable: i64, cash: i64, amount: i64) -> (r: Result<(), Refusal>)
    ensures
        r == (if withdrawable < amount {
            Err(
                Refusal {
                    status: 422,
                    message: "That exceeds your withdrawable balance — deposits funding active loans stay locked until repayment",
                },
            )
        } else if cash < amount {
            Err(
                Refusal {
                    status: 503,
                    message: "The pool can't cover this right now — most of it is out on loans. Try again after repayments arrive",
                },
            )
        } else {
            Ok(())
        }),
{
    if withdrawable < amount {
        return Err(
            Refusal {
                status: 422,
                message: "That exceeds your withdrawable balance — deposits funding active loans stay locked until repayment",
            },
        );
    }
    if cash < amount {
        return Err(
            Refusal {
                status: 503,
                message: "The pool can't cover this right now — most of it is out on loans. Try again after repayments arrive",
            },
        );
    }
    Ok(())
}

/// One withdrawable lot: its amount, and whether it holds loan proceeds.
#[derive(Clone, Copy, Debug, PartialEq, Eq)]
pub struct Lot {
    pub amount: i64,
    pub proceeds: bool,
}

pub open spec fn lot_amounts(lots: Seq<Lot>) -> Seq<i64> {
    Seq::new(lots.len(), |k: int| lots[k].amount)
}

/// What lot `k` gives up to a withdrawal of `amount`, oldest lot first.
pub open spec fn taken(lots: Seq<Lot>, amount: int, k: int) -> int {
    share(lot_amounts(lots), amount, k)
}

/// What the first `i` lots holding loan proceeds give up together.
pub open spec fn proceeds_before(lots: Seq<Lot>, amount: int, i: int) -> int
    decreases i,
{
    if i <= 0 {
        0
    } else {
        proceeds_before(lots, amount, i - 1) + (if lots[i - 1].proceeds {
            taken(lots, amount, i - 1)
        } else {
            0
        })
    }
}

/// How a withdrawal consumes the member's lots.
#[derive(Clone, Debug, PartialEq, Eq)]
pub struct Consumption {
    /// One change per lot, in the order given.
    pub changes: Vec<LotChange>,
    /// How much of the withdrawal came out of loan proceeds.
    pub from_proceeds: i64,
}

/// Consumes `amount` from the lots, oldest first, each whole before the next
/// is touched. When the lots hold at least the amount, exactly the amount is
/// taken.
pub fn consume_lots(lots: &[Lot], amount: i64) -> (r: Consumption)
    requires
        amount >= 0,
        forall|k: int| 0 <= k < lots@.len() ==> #[trigger] lots@[k].amount > 0,
    ensures
        r.changes@.len() == lots@.len(),
        forall|k: int|
            0 <= k < lots@.len() ==> #[trigger] r.changes@[k] == change_of(
                lots@[k].amount,
                taken(lots@, amount as int, k),
            ),
        r.from_proceeds == proceeds_before(lots@, amount as int, lots@.len() as int),
        shares_before(lot_amounts(lots@), amount as int, lots@.len() as int) + leftover(
            lot_amounts(lots@),
            amount as int,
        ) == amount,
{
    let n = lots.len();
    let mut amounts: Vec<i64> = Vec::new();
    let mut i: usize = 0;
    while i < n
        invariant
            i <= n,
            n == lots@.len(),
            amounts@.len() == i,
            forall|k: int| 0 <= k < i ==> #[trigger] amounts@[k] == lots@[k].amount,
        decreases n - i,
    {
        amounts.push(lots[i].amount);
        i = i + 1;
    }
    assert(amounts@ =~= lot_amounts(lots@));
    let (shares, _left) = waterfall(amounts.as_slice(), amount);
    proof {
        lemma_waterfall_conserves(amounts@, amount as int);
    }
    let mut changes: Vec<LotChange> = Vec::new();
    let mut from_proceeds: i64 = 0;
    let mut j: usize = 0;
    while j < n
        invariant
            j <= n,
            n == lots@.len(),
            amount >= 0,
            amounts@ == lot_amounts(lots@),
            shares@.len() == n,
            forall|k: int| 0 <= k < n ==> #[trigger] shares@[k] == taken(lots@, amount as int, k),
            changes@.len() == j,
            forall|k: int|
                0 <= k < j ==> #[trigger] changes@[k] == change_of(
                    lots@[k].amount,
                    taken(lots@, amount as int, k),
                ),
            from_proceeds == proceeds_before(lots@, amount as int, j as int),
            0 <= from_proceeds <= shares_before(amounts@, amount as int, j as int),
            shares_before(amounts@, amount as int, n as int) <= amount,
        decreases n - j,
    {
        let t = shares[j];
        let lot = lots[j];
        proof {
            lemma_shares_before_monotone(amounts@, amount as int, (j + 1) as int, n as int);
            assert(t >= 0);
        }
        let change = if t == lot.amount {
            LotChange::Remove
        } else if t > 0 {
            LotChange::Reduce(t)
        } else {
            LotChange::Keep
        };
        changes.push(change);
        if lot.proceeds {
            from_proceeds = from_proceeds + t;
        }
        j = j + 1;
    }
    Consumption { changes, from_proceeds }
}

proof fn lemma_shares_before_monotone(caps: Seq<i64>, money: int, i: int, j: int)
    requires
        0 <= i <= j <= caps.len(),
    ensures
        shares_before(caps, money, i) <= shares_before(caps, money, j),
    decreases j - i,
{
    if i < j {
        lemma_shares_before_monotone(caps, money, i, j - 1);
    }
}

/// Whether a payout is a failed withdrawal that still needs refunding.
pub fn needs_refund(kind: &str, status: &str) -> (r: bool)
    ensures
        r == (kind@ == "deposit_withdrawal"@ && (status@ == "failed"@ || status@ == "returned"@)),
{
    str_eq(kind, "deposit_withdrawal") && (str_eq(status, "failed") || str_eq(status, "returned"))
}

/// A failed withdrawal comes back as fresh lots: the part that came out of
/// loan proceeds goes back as proceeds, the rest as an ordinary refund. The
/// recorded proceeds figure is held to between nothing and the amount.
pub fn refund_parts(amount: i64, recorded_proceeds: i64) -> (r: (i64, i64))
    requires
        amount >= 0,
    ensures
        r.1 == (if recorded_proceeds < 0 {
            0
        } else if recorded_proceeds > amount {
            amount as int
        } else {
            recorded_proceeds as int
        }),
        r.0 + r.1 == amount,
        r.0 >= 0,
        r.1 >= 0,
{
    let fp = if recorded_proceeds < 0 {
        0
    } else if recorded_proceeds > amount {
        amount
    } else {
        recorded_proceeds
    };
    (amount - fp, fp)
}

} // verus!
