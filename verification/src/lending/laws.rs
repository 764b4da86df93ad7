//! Properties of the lending flows as a whole.

use vstd::prelude::*;

use super::ledger::{Posting, balanced, lemma_posted_total_push, posted_total};
use super::repay::{repayment_lines, settlement_lines, with_credit};

verus! {

proof fn lemma_with_credit_total(ps: Seq<Posting>, account: &'static str, amount: i64)
    requires
        amount >= 0,
    ensures
        posted_total(with_credit(ps, account, amount)) == posted_total(ps) - amount,
{
    if amount > 0 {
        lemma_posted_total_push(ps, Posting { account, amount: (-amount) as i64 });
    }
}

proof fn lemma_opening_line(received: i64)
    ensures
        posted_total(seq![Posting { account: "cash", amount: received }]) == received,
{
    lemma_posted_total_push(Seq::empty(), Posting { account: "cash", amount: received });
    assert(Seq::<Posting>::empty().push(Posting { account: "cash", amount: received }) =~= seq![
        Posting { account: "cash", amount: received },
    ]);
}

/// Every repayment balances the books: whatever a payment is split into
/// (principal, the platform's and the reserve's cut of the interest, and the
/// excess), the cash that came in equals everything it was credited to.
pub proof fn law_repayment_balances(
    received: i64,
    principal: i64,
    interest: i64,
    excess: i64,
    platform: i64,
    reserve: i64,
)
    requires
        principal >= 0,
        excess >= 0,
        platform >= 0,
        reserve >= 0,
        interest + principal + excess == received,
        platform + reserve == interest,
    ensures
        balanced(repayment_lines(received, principal, platform, reserve, excess)),
{
    let l0 = seq![Posting { account: "cash", amount: received }];
    lemma_opening_line(received);
    let l1 = with_credit(l0, "loans_receivable", principal);
    lemma_with_credit_total(l0, "loans_receivable", principal);
    let l2 = with_credit(l1, "platform_earnings", platform);
    lemma_with_credit_total(l1, "platform_earnings", platform);
    let l3 = with_credit(l2, "reserve_fund", reserve);
    lemma_with_credit_total(l2, "reserve_fund", reserve);
    lemma_with_credit_total(l3, "member_deposits", excess);
}

/// A settlement payment balances the books whenever what went back to the
/// guarantors, the reserve and the borrower adds up to what came in.
pub proof fn law_settlement_balances(
    received: i64,
    to_guarantors: i64,
    to_reserve: i64,
    to_borrower: i64,
)
    requires
        to_guarantors >= 0,
        to_reserve >= 0,
        to_borrower >= 0,
        to_guarantors + to_reserve + to_borrower == received,
    ensures
        balanced(settlement_lines(received, to_guarantors, to_reserve, to_borrower)),
{
    let l0 = seq![Posting { account: "cash", amount: received }];
    lemma_opening_line(received);
    let l1 = with_credit(l0, "member_deposits", to_guarantors);
    lemma_with_credit_total(l0, "member_deposits", to_guarantors);
    let l2 = with_credit(l1, "reserve_fund", to_reserve);
    lemma_with_credit_total(l1, "reserve_fund", to_reserve);
    lemma_with_credit_total(l2, "member_deposits", to_borrower);
}

} // verus!
