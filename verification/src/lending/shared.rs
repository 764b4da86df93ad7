//! Guards every lending endpoint applies at the door.

use vstd::prelude::*;

use super::ledger::{Posting, balanced, lemma_posted_total_push, posted_total};
use crate::Refusal;
use crate::text::str_eq;

verus! {

/// The largest amount any request may name: ten billion pesos, in centavos.
pub const MAX_CENTAVOS: i64 = 1_000_000_000_000;

/// The loan products, by the only names they go by.
pub open spec fn product_named(product: Seq<char>) -> Option<&'static str> {
    if product == "deposit_backed"@ {
        Some("deposit_backed")
    } else if product == "xlm_collateral"@ {
        Some("xlm_collateral")
    } else if product == "guarantor"@ {
        Some("guarantor")
    } else {
        None
    }
}

/// Whitelists the product string once, at the door.
pub fn validate_product(product: &str) -> (r: Result<&'static str, Refusal>)
    ensures
        r == (match product_named(product@) {
            Some(p) => Ok(p),
            None => Err(Refusal { status: 422, message: "Unknown loan product" }),
        }),
{
    if str_eq(product, "deposit_backed") {
        Ok("deposit_backed")
    } else if str_eq(product, "xlm_collateral") {
        Ok("xlm_collateral")
    } else if str_eq(product, "guarantor") {
        Ok("guarantor")
    } else {
        Err(Refusal { status: 422, message: "Unknown loan product" })
    }
}

/// Centavo amounts arrive as JSON integers; anything not strictly positive,
/// or absurdly large, stops here.
pub fn validate_centavos(amount: i64) -> (r: Result<i64, Refusal>)
    ensures
        r == (if amount <= 0 || amount > MAX_CENTAVOS {
            Err(Refusal { status: 422, message: "Invalid amount" })
        } else {
            Ok(amount)
        }),
{
    if amount <= 0 || amount > MAX_CENTAVOS {
        return Err(Refusal { status: 422, message: "Invalid amount" });
    }
    Ok(amount)
}

/// Whether every leg backing a loan is in place: the borrower's own coins,
/// when there is a leg on them, are no longer waiting to lock; and, for a
/// guarantor loan, the accepted pledges reach what the borrower's own cover
/// leaves uncovered.
pub open spec fn backed(coins_pending: bool, product: Seq<char>, principal: int, cover: int, accepted: int) -> bool {
    &&& !coins_pending
    &&& (product != "guarantor"@ || principal - cover <= 0 || accepted >= principal - cover)
}

/// Is every leg backing this loan actually in place? Two products fund
/// asynchronously, and a guarantor loan can wait on both at once; whichever
/// lands last funds the loan, so both ask this.
pub fn backing_complete(coins_pending: bool, product: &str, principal: i64, cover: i64, accepted: i64) -> (r: bool)
    ensures
        r == backed(coins_pending, product@, principal as int, cover as int, accepted as int),
{
    if coins_pending {
        return false;
    }
    if !str_eq(product, "guarantor") {
        return true;
    }
    let gap: i128 = (principal as i128) - (cover as i128);
    if gap <= 0 {
        return true;
    }
    (accepted as i128) >= gap
}

/// What the pool can lend right now: free cash, less the proceeds other
/// borrowers have yet to withdraw and the funds held rather than lent.
pub open spec fn lendable(free_cash: int, proceeds_waiting: int, retained: int) -> int {
    free_cash - proceeds_waiting - retained
}

/// The refusal when the pool cannot fund a principal out of what it can lend.
pub fn liquidity_check(free_cash: i64, proceeds_waiting: i64, retained: i64, principal: i64) -> (r: Result<(), Refusal>)
    ensures
        r == (if lendable(free_cash as int, proceeds_waiting as int, retained as int) < principal {
            Err(Refusal {
                status: 503,
                message: "The pool doesn't have enough liquidity right now — try a smaller amount or come back later",
            })
        } else {
            Ok(())
        }),
{
    let cash: i128 = (free_cash as i128) - (proceeds_waiting as i128) - (retained as i128);
    if cash < principal as i128 {
        return Err(Refusal {
            status: 503,
            message: "The pool doesn't have enough liquidity right now — try a smaller amount or come back later",
        });
    }
    Ok(())
}

/// The books for a disbursement: the pool is owed the principal and owes the
/// borrower a deposit of the same amount. No cash moves until the borrower
/// withdraws.
pub fn disbursal_postings(principal: i64) -> (r: Vec<Posting>)
    requires
        principal > i64::MIN,
    ensures
        r@ == seq![
            Posting { account: "loans_receivable", amount: principal },
            Posting { account: "member_deposits", amount: (-principal) as i64 },
        ],
        balanced(r@),
{
    let mut ps: Vec<Posting> = Vec::new();
    let a = Posting { account: "loans_receivable", amount: principal };
    let b = Posting { account: "member_deposits", amount: -principal };
    proof {
        lemma_posted_total_push(ps@, a);
        lemma_posted_total_push(ps@.push(a), b);
    }
    ps.push(a);
    ps.push(b);
    assert(ps@ =~= seq![a, b]);
    assert(posted_total(Seq::<Posting>::empty()) == 0);
    ps
}

/// The books for crediting proceeds a loan disbursed before they were paid
/// into balances: the promise to pay out is cancelled and becomes a deposit.
pub fn proceeds_postings(principal: i64) -> (r: Vec<Posting>)
    requires
        principal > i64::MIN,
    ensures
        r@ == seq![
            Posting { account: "payout_payable", amount: principal },
            Posting { account: "member_deposits", amount: (-principal) as i64 },
        ],
        balanced(r@),
{
    let mut ps: Vec<Posting> = Vec::new();
    let a = Posting { account: "payout_payable", amount: principal };
    let b = Posting { account: "member_deposits", amount: -principal };
    proof {
        lemma_posted_total_push(ps@, a);
        lemma_posted_total_push(ps@.push(a), b);
    }
    ps.push(a);
    ps.push(b);
    assert(ps@ =~= seq![a, b]);
    assert(posted_total(Seq::<Posting>::empty()) == 0);
    ps
}

/// The ledger reference a loan's proceeds are credited under; the ledger
/// takes each reference once, so a second pass credits nothing.
pub fn proceeds_rail_ref(loan_id: &str) -> (r: String)
    ensures
        r@ == "loan_proceeds:"@ + loan_id@,
{
    String::from_str("loan_proceeds:").concat(loan_id)
}

} // verus!
