//! A repayment against a running loan: the captured centavos are allocated
//! oldest installment first, each installment's interest before its
//! principal, and anything past the final installment is excess that becomes
//! a fresh deposit. The books take one balanced event for it.

use vstd::prelude::*;

use super::ledger::{Posting, balanced, lemma_posted_total_push, posted_total};
use crate::domain::interest::{pct_of, split_interest};
use crate::domain::rounding::lemma_half_even_within;
use crate::policy::InterestSplit;
use crate::score::{latest, score_rise_at};
use super::waterfall::{
    leftover, lemma_shares_before, lemma_waterfall_conserves, lemma_waterfall_full,
    lemma_waterfall_in_order, room, share, shares_before, waterfall,
};

verus! {

/// One installment as a repayment reads and rewrites it.
#[derive(Clone, Copy, Debug, PartialEq, Eq)]
pub struct ScheduleRow {
    pub id: i64,
    pub interest_due: i64,
    pub interest_paid: i64,
    pub principal_due: i64,
    pub principal_paid: i64,
}

/// A row whose two remaining amounts are centavo figures.
pub open spec fn row_fits(r: ScheduleRow) -> bool {
    &&& i64::MIN <= r.interest_due - r.interest_paid <= i64::MAX
    &&& i64::MIN <= r.principal_due - r.principal_paid <= i64::MAX
}

/// Fully paid: both the interest and the principal of the installment.
pub open spec fn settled(r: ScheduleRow) -> bool {
    r.interest_paid >= r.interest_due && r.principal_paid >= r.principal_due
}

/// What a payment pays down, in the order it pays it: oldest installment
/// first, and within each its interest, then its principal.
pub open spec fn owed_in_order(rows: Seq<ScheduleRow>) -> Seq<i64> {
    Seq::new(
        2 * rows.len(),
        |k: int|
            if k % 2 == 0 {
                (rows[k / 2].interest_due - rows[k / 2].interest_paid) as i64
            } else {
                (rows[k / 2].principal_due - rows[k / 2].principal_paid) as i64
            },
    )
}

/// What installment `k`'s interest receives out of `money`.
pub open spec fn interest_share(rows: Seq<ScheduleRow>, money: int, k: int) -> int {
    share(owed_in_order(rows), money, 2 * k)
}

/// What installment `k`'s principal receives out of `money`.
pub open spec fn principal_share(rows: Seq<ScheduleRow>, money: int, k: int) -> int {
    share(owed_in_order(rows), money, 2 * k + 1)
}

/// The interest the first `i` installments receive together.
pub open spec fn interest_before(rows: Seq<ScheduleRow>, money: int, i: int) -> int
    decreases i,
{
    if i <= 0 {
        0
    } else {
        interest_before(rows, money, i - 1) + interest_share(rows, money, i - 1)
    }
}

/// The principal the first `i` installments receive together.
pub open spec fn principal_before(rows: Seq<ScheduleRow>, money: int, i: int) -> int
    decreases i,
{
    if i <= 0 {
        0
    } else {
        principal_before(rows, money, i - 1) + principal_share(rows, money, i - 1)
    }
}

/// Where one payment went.
#[derive(Clone, Copy, Debug, PartialEq, Eq)]
pub struct Allocation {
    pub interest: i64,
    pub principal: i64,
    /// Beyond everything the schedule owed.
    pub excess: i64,
}

/// Allocates `received` down the schedule, oldest installment first, interest
/// before principal within each, and updates the rows' paid amounts.
///
/// Nothing is lost: interest, principal and excess add up to what was
/// received. There is excess only once every installment is fully paid, and
/// an installment still owing after the payment means no later installment
/// received anything.
pub fn allocate_payment(schedule: &mut Vec<ScheduleRow>, received: i64) -> (r: Allocation)
    requires
        received >= 0,
        forall|k: int| 0 <= k < old(schedule)@.len() ==> row_fits(#[trigger] old(schedule)@[k]),
    ensures
        final(schedule)@.len() == old(schedule)@.len(),
        forall|k: int|
            0 <= k < old(schedule)@.len() ==> {
                &&& (#[trigger] final(schedule)@[k]).id == old(schedule)@[k].id
                &&& final(schedule)@[k].interest_due == old(schedule)@[k].interest_due
                &&& final(schedule)@[k].principal_due == old(schedule)@[k].principal_due
                &&& final(schedule)@[k].interest_paid == old(schedule)@[k].interest_paid
                    + interest_share(old(schedule)@, received as int, k)
                &&& final(schedule)@[k].principal_paid == old(schedule)@[k].principal_paid
                    + principal_share(old(schedule)@, received as int, k)
            },
        r.interest == interest_before(old(schedule)@, received as int, old(schedule)@.len() as int),
        r.principal == principal_before(old(schedule)@, received as int, old(schedule)@.len() as int),
        r.excess == leftover(owed_in_order(old(schedule)@), received as int),
        r.interest + r.principal + r.excess == received,
        r.interest >= 0,
        r.principal >= 0,
        r.excess >= 0,
        r.excess > 0 ==> forall|k: int|
            0 <= k < final(schedule)@.len() ==> settled(#[trigger] final(schedule)@[k]),
        forall|j: int, k: int|
            0 <= j < k < final(schedule)@.len() && !settled(#[trigger] final(schedule)@[j])
                ==> #[trigger] final(schedule)@[k] == old(schedule)@[k],
{
    let n = schedule.len();
    let ghost rows0 = schedule@;
    let ghost m = received as int;
    let mut caps: Vec<i64> = Vec::new();
    let mut i: usize = 0;
    while i < n
        invariant
            i <= n,
            n == rows0.len(),
            schedule@ == rows0,
            caps@.len() == 2 * i,
            forall|k: int| 0 <= k < rows0.len() ==> row_fits(#[trigger] rows0[k]),
            forall|k: int| 0 <= k < 2 * i ==> #[trigger] caps@[k] == owed_in_order(rows0)[k],
        decreases n - i,
    {
        let row = schedule[i];
        assert(row_fits(rows0[i as int]));
        caps.push(row.interest_due - row.interest_paid);
        caps.push(row.principal_due - row.principal_paid);
        proof {
            assert((2 * i) as int / 2 == i);
            assert((2 * i + 1) as int / 2 == i);
        }
        i = i + 1;
    }
    assert(caps@ =~= owed_in_order(rows0));
    let (shares, excess) = waterfall(caps.as_slice(), received);
    proof {
        lemma_waterfall_conserves(caps@, m);
    }
    let mut interest: i64 = 0;
    let mut principal: i64 = 0;
    let mut j: usize = 0;
    while j < n
        invariant
            j <= n,
            n == rows0.len(),
            caps@ == owed_in_order(rows0),
            forall|k: int| 0 <= k < rows0.len() ==> row_fits(#[trigger] rows0[k]),
            shares@.len() == 2 * n,
            received >= 0,
            m == received,
            forall|k: int| 0 <= k < 2 * n ==> #[trigger] shares@[k] == share(caps@, m, k),
            schedule@.len() == n,
            interest == interest_before(rows0, m, j as int),
            principal == principal_before(rows0, m, j as int),
            interest + principal == shares_before(caps@, m, 2 * j),
            interest >= 0,
            principal >= 0,
            forall|k: int| j <= k < n ==> #[trigger] schedule@[k] == rows0[k],
            forall|k: int|
                0 <= k < j ==> {
                    &&& (#[trigger] schedule@[k]).id == rows0[k].id
                    &&& schedule@[k].interest_due == rows0[k].interest_due
                    &&& schedule@[k].principal_due == rows0[k].principal_due
                    &&& schedule@[k].interest_paid == rows0[k].interest_paid + interest_share(
                        rows0,
                        m,
                        k,
                    )
                    &&& schedule@[k].principal_paid == rows0[k].principal_paid + principal_share(
                        rows0,
                        m,
                        k,
                    )
                },
        decreases n - j,
    {
        let a = shares[2 * j];
        let b = shares[2 * j + 1];
        let row = schedule[j];
        proof {
            let jj = j as int;
            assert(shares_before(caps@, m, 2 * jj + 1) == shares_before(caps@, m, 2 * jj) + share(
                caps@,
                m,
                2 * jj,
            ));
            assert(shares_before(caps@, m, 2 * jj + 2) == shares_before(caps@, m, 2 * jj) + share(
                caps@,
                m,
                2 * jj,
            ) + share(caps@, m, 2 * jj + 1));
            lemma_shares_before(caps@, m, 2 * jj + 2);
            assert(share(caps@, m, 2 * jj) >= 0);
            assert(share(caps@, m, 2 * jj + 1) >= 0);
            assert((2 * jj) / 2 == jj);
            assert((2 * jj + 1) / 2 == jj);
            assert(row_fits(rows0[jj]));
            assert(caps@[2 * jj] == rows0[jj].interest_due - rows0[jj].interest_paid);
            assert(caps@[2 * jj + 1] == rows0[jj].principal_due - rows0[jj].principal_paid);
        }
        schedule.set(
            j,
            ScheduleRow {
                id: row.id,
                interest_due: row.interest_due,
                interest_paid: row.interest_paid + a,
                principal_due: row.principal_due,
                principal_paid: row.principal_paid + b,
            },
        );
        interest = interest + a;
        principal = principal + b;
        j = j + 1;
    }
    proof {
        assert forall|k: int| 0 <= k < n implies interest_share(rows0, m, k) >= 0 && principal_share(
            rows0,
            m,
            k,
        ) >= 0 by {}
        lemma_interest_before_nonneg(rows0, m, n as int);
        lemma_principal_before_nonneg(rows0, m, n as int);
        if excess > 0 {
            assert forall|k: int| 0 <= k < n implies settled(#[trigger] schedule@[k]) by {
                lemma_waterfall_full(caps@, m, 2 * k);
                lemma_waterfall_full(caps@, m, 2 * k + 1);
                assert((2 * k) / 2 == k);
                assert((2 * k + 1) / 2 == k);
            }
        }
        assert forall|a: int, k: int|
            0 <= a < k < n && !settled(#[trigger] schedule@[a]) implies #[trigger] schedule@[k]
            == rows0[k] by {
            assert((2 * a) / 2 == a);
            assert((2 * a + 1) / 2 == a);
            assert((2 * k) / 2 == k);
            assert((2 * k + 1) / 2 == k);
            if schedule@[a].interest_paid < schedule@[a].interest_due {
                lemma_waterfall_in_order(caps@, m, 2 * a, 2 * k);
                lemma_waterfall_in_order(caps@, m, 2 * a, 2 * k + 1);
            } else {
                lemma_waterfall_in_order(caps@, m, 2 * a + 1, 2 * k);
                lemma_waterfall_in_order(caps@, m, 2 * a + 1, 2 * k + 1);
            }
        }
    }
    Allocation { interest, principal, excess }
}

proof fn lemma_interest_before_nonneg(rows: Seq<ScheduleRow>, m: int, i: int)
    requires
        0 <= i <= rows.len(),
        forall|k: int| 0 <= k < rows.len() ==> interest_share(rows, m, k) >= 0,
    ensures
        interest_before(rows, m, i) >= 0,
    decreases i,
{
    if i > 0 {
        lemma_interest_before_nonneg(rows, m, i - 1);
    }
}

proof fn lemma_principal_before_nonneg(rows: Seq<ScheduleRow>, m: int, i: int)
    requires
        0 <= i <= rows.len(),
        forall|k: int| 0 <= k < rows.len() ==> principal_share(rows, m, k) >= 0,
    ensures
        principal_before(rows, m, i) >= 0,
    decreases i,
{
    if i > 0 {
        lemma_principal_before_nonneg(rows, m, i - 1);
    }
}

/// `ps` with one more line taking `amount` out to `account`, when there is
/// any amount to post.
pub open spec fn with_credit(ps: Seq<Posting>, account: &'static str, amount: i64) -> Seq<Posting> {
    if amount > 0 {
        ps.push(Posting { account, amount: (-amount) as i64 })
    } else {
        ps
    }
}

fn push_credit(ps: &mut Vec<Posting>, account: &'static str, amount: i64)
    requires
        amount > i64::MIN,
    ensures
        final(ps)@ == with_credit(old(ps)@, account, amount),
        posted_total(final(ps)@) == posted_total(old(ps)@) - (if amount > 0 {
            amount as int
        } else {
            0
        }),
{
    if amount > 0 {
        proof {
            lemma_posted_total_push(ps@, Posting { account, amount: (-amount) as i64 });
        }
        ps.push(Posting { account, amount: -amount });
    }
}

/// The books for an ordinary repayment: the cash that came in, against the
/// principal repaid, the platform's and the reserve's cut of the interest,
/// and the excess credited to the member's deposits.
pub open spec fn repayment_lines(
    received: i64,
    principal: i64,
    platform: i64,
    reserve: i64,
    excess: i64,
) -> Seq<Posting> {
    with_credit(
        with_credit(
            with_credit(
                with_credit(seq![Posting { account: "cash", amount: received }], "loans_receivable", principal),
                "platform_earnings",
                platform,
            ),
            "reserve_fund",
            reserve,
        ),
        "member_deposits",
        excess,
    )
}

/// The postings of an ordinary repayment. They balance whenever the parts add
/// up to what was received.
pub fn repayment_postings(received: i64, principal: i64, platform: i64, reserve: i64, excess: i64) -> (r: Vec<Posting>)
    requires
        principal >= 0,
        platform >= 0,
        reserve >= 0,
        excess >= 0,
        received == principal + platform + reserve + excess,
    ensures
        r@ == repayment_lines(received, principal, platform, reserve, excess),
        balanced(r@),
{
    let mut ps: Vec<Posting> = Vec::new();
    proof {
        lemma_posted_total_push(ps@, Posting { account: "cash", amount: received });
    }
    ps.push(Posting { account: "cash", amount: received });
    assert(ps@ =~= seq![Posting { account: "cash", amount: received }]);
    push_credit(&mut ps, "loans_receivable", principal);
    push_credit(&mut ps, "platform_earnings", platform);
    push_credit(&mut ps, "reserve_fund", reserve);
    push_credit(&mut ps, "member_deposits", excess);
    ps
}

/// The books for a payment that settles a reopened default: the cash that
/// came in, against what went back to the guarantors, the reserve, and the
/// borrower's own deposits.
pub open spec fn settlement_lines(
    received: i64,
    to_guarantors: i64,
    to_reserve: i64,
    to_borrower: i64,
) -> Seq<Posting> {
    with_credit(
        with_credit(
            with_credit(seq![Posting { account: "cash", amount: received }], "member_deposits", to_guarantors),
            "reserve_fund",
            to_reserve,
        ),
        "member_deposits",
        to_borrower,
    )
}

/// The postings of a settlement payment; balanced when the three parts add up
/// to what was received.
pub fn settlement_postings(received: i64, to_guarantors: i64, to_reserve: i64, to_borrower: i64) -> (r: Vec<Posting>)
    requires
        to_guarantors >= 0,
        to_reserve >= 0,
        to_borrower >= 0,
        received == to_guarantors + to_reserve + to_borrower,
    ensures
        r@ == settlement_lines(received, to_guarantors, to_reserve, to_borrower),
        balanced(r@),
{
    let mut ps: Vec<Posting> = Vec::new();
    proof {
        lemma_posted_total_push(ps@, Posting { account: "cash", amount: received });
    }
    ps.push(Posting { account: "cash", amount: received });
    assert(ps@ =~= seq![Posting { account: "cash", amount: received }]);
    push_credit(&mut ps, "member_deposits", to_guarantors);
    push_credit(&mut ps, "reserve_fund", to_reserve);
    push_credit(&mut ps, "member_deposits", to_borrower);
    ps
}

/// Every installment's interest is paid.
pub open spec fn interest_settled(rows: Seq<ScheduleRow>) -> bool {
    forall|k: int| 0 <= k < rows.len() ==> #[trigger] rows[k].interest_paid >= rows[k].interest_due
}

/// The loan after a payment: what principal is still outstanding, and whether
/// it is now fully repaid. A settlement never closes the loan by itself, and
/// its principal was already written down to zero when the default was
/// recovered.
pub fn loan_after_payment(settling: bool, outstanding_before: i64, principal_paid: i64, rows: &[ScheduleRow]) -> (r: (i64, bool))
    requires
        settling || i64::MIN <= outstanding_before - principal_paid <= i64::MAX,
    ensures
        r.0 == (if settling {
            0
        } else {
            outstanding_before - principal_paid
        }),
        r.1 == (!settling && r.0 == 0 && interest_settled(rows@)),
{
    let after: i64 = if settling {
        0
    } else {
        outstanding_before - principal_paid
    };
    if settling || after != 0 {
        return (after, false);
    }
    let n = rows.len();
    let mut i: usize = 0;
    while i < n
        invariant
            i <= n,
            n == rows@.len(),
            forall|k: int| 0 <= k < i ==> #[trigger] rows@[k].interest_paid >= rows@[k].interest_due,
            !settling,
            after == 0,
            after == outstanding_before - principal_paid,
        decreases n - i,
    {
        if rows[i].interest_paid < rows[i].interest_due {
            return (after, false);
        }
        i = i + 1;
    }
    (after, true)
}

/// What the repayment endpoint answers.
#[derive(Clone, Copy, Debug, PartialEq, Eq)]
pub struct RepayResponse {
    pub amount_received: i64,
    pub interest_paid: i64,
    pub principal_paid: i64,
    /// Anything beyond what the loan owed becomes a fresh deposit lot.
    pub excess_to_deposit: i64,
    pub principal_outstanding: i64,
    pub loan_status: &'static str,
    pub message: &'static str,
}

/// The loan's status after a payment: closed once fully repaid, still
/// `reconciling` while a default is being settled, otherwise active.
pub open spec fn status_after(fully_paid: bool, settling: bool) -> &'static str {
    if fully_paid {
        "closed"
    } else if settling {
        "reconciling"
    } else {
        "active"
    }
}

pub open spec fn repay_message(fully_paid: bool, settling: bool, arrears_after: i64) -> &'static str {
    if fully_paid {
        "Loan fully repaid — collateral released; your credit score rises when the loan's term ends"
    } else if settling && arrears_after == 0 {
        "Arrears cleared — an administrator will confirm the settlement and restore your standing"
    } else if settling {
        "Payment received and applied to your arrears"
    } else {
        "Payment received and applied"
    }
}

/// The answer to a repayment. On a settlement the excess that reached the
/// member is what the settlement left for the borrower.
pub fn repay_response(
    received: i64,
    interest: i64,
    principal: i64,
    excess_to_deposit: i64,
    outstanding_after: i64,
    fully_paid: bool,
    settling: bool,
    arrears_after: i64,
) -> (r: RepayResponse)
    ensures
        r == (RepayResponse {
            amount_received: received,
            interest_paid: interest,
            principal_paid: principal,
            excess_to_deposit,
            principal_outstanding: outstanding_after,
            loan_status: status_after(fully_paid, settling),
            message: repay_message(fully_paid, settling, arrears_after),
        }),
{
    let (loan_status, message) = if fully_paid {
        ("closed", "Loan fully repaid — collateral released; your credit score rises when the loan's term ends")
    } else if settling && arrears_after == 0 {
        (
            "reconciling",
            "Arrears cleared — an administrator will confirm the settlement and restore your standing",
        )
    } else if settling {
        ("reconciling", "Payment received and applied to your arrears")
    } else {
        ("active", "Payment received and applied")
    };
    RepayResponse {
        amount_received: received,
        interest_paid: interest,
        principal_paid: principal,
        excess_to_deposit,
        principal_outstanding: outstanding_after,
        loan_status,
        message,
    }
}

/// A running loan is fully repaid once no principal is outstanding and every
/// installment's interest is paid.
pub open spec fn fully_repaid(outstanding_after: int, rows: Seq<ScheduleRow>) -> bool {
    outstanding_after == 0 && interest_settled(rows)
}

/// An ordinary repayment of a running loan, decided whole.
#[derive(Clone, Debug)]
pub struct RepaymentDecision {
    pub response: RepayResponse,
    /// The one balanced ledger event the payment is booked as.
    pub postings: Vec<Posting>,
    /// When the borrower's score rise falls due, for a loan this payment
    /// repays in full; the rise itself is paid by the term-end sweep.
    pub score_rise_at: Option<i64>,
}

/// Decides an ordinary repayment of `received` centavos against a running
/// loan: allocates it down the schedule (oldest installment first, interest
/// before principal), books it with the interest split between the platform
/// and the reserve, writes the principal down, and closes the loan once
/// nothing is owed. A loan repaid in full has its score rise scheduled for
/// its term end (the latest of `due_dates` and `now`); the payment itself
/// moves no score. `split` is the rulebook's, whose platform share is a
/// percentage.
pub fn decide_repayment(
    schedule: &mut Vec<ScheduleRow>,
    received: i64,
    outstanding_before: i64,
    split: &InterestSplit,
    due_dates: &[i64],
    now: i64,
) -> (r: RepaymentDecision)
    requires
        received >= 0,
        forall|k: int| 0 <= k < old(schedule)@.len() ==> row_fits(#[trigger] old(schedule)@[k]),
        0 <= split.platform <= 100,
        i64::MIN <= outstanding_before - principal_before(
            old(schedule)@,
            received as int,
            old(schedule)@.len() as int,
        ) <= i64::MAX,
    ensures
        final(schedule)@.len() == old(schedule)@.len(),
        forall|k: int|
            0 <= k < old(schedule)@.len() ==> {
                &&& (#[trigger] final(schedule)@[k]).id == old(schedule)@[k].id
                &&& final(schedule)@[k].interest_due == old(schedule)@[k].interest_due
                &&& final(schedule)@[k].principal_due == old(schedule)@[k].principal_due
                &&& final(schedule)@[k].interest_paid == old(schedule)@[k].interest_paid
                    + interest_share(old(schedule)@, received as int, k)
                &&& final(schedule)@[k].principal_paid == old(schedule)@[k].principal_paid
                    + principal_share(old(schedule)@, received as int, k)
            },
        r.response.amount_received == received,
        r.response.interest_paid == interest_before(
            old(schedule)@,
            received as int,
            old(schedule)@.len() as int,
        ),
        r.response.principal_paid == principal_before(
            old(schedule)@,
            received as int,
            old(schedule)@.len() as int,
        ),
        r.response.excess_to_deposit == leftover(owed_in_order(old(schedule)@), received as int),
        r.response.interest_paid + r.response.principal_paid + r.response.excess_to_deposit
            == received,
        r.response.interest_paid >= 0 && r.response.principal_paid >= 0
            && r.response.excess_to_deposit >= 0,
        r.response.excess_to_deposit > 0 ==> forall|k: int|
            0 <= k < final(schedule)@.len() ==> settled(#[trigger] final(schedule)@[k]),
        forall|j: int, k: int|
            0 <= j < k < final(schedule)@.len() && !settled(#[trigger] final(schedule)@[j])
                ==> #[trigger] final(schedule)@[k] == old(schedule)@[k],
        r.response.principal_outstanding == outstanding_before - r.response.principal_paid,
        r.response.loan_status == (if fully_repaid(
            r.response.principal_outstanding as int,
            final(schedule)@,
        ) {
            "closed"
        } else {
            "active"
        }),
        r.response.message == repay_message(
            fully_repaid(r.response.principal_outstanding as int, final(schedule)@),
            false,
            0,
        ),
        r.postings@ == repayment_lines(
            received,
            r.response.principal_paid,
            pct_of(r.response.interest_paid as int, split.platform),
            (r.response.interest_paid - pct_of(r.response.interest_paid as int, split.platform)) as i64,
            r.response.excess_to_deposit,
        ),
        balanced(r.postings@),
        r.score_rise_at == (if fully_repaid(r.response.principal_outstanding as int, final(schedule)@) {
            Some(latest(due_dates@, now))
        } else {
            None::<i64>
        }),
{
    let a = allocate_payment(schedule, received);
    proof {
        assert(0 <= a.interest * split.platform <= a.interest * 100) by (nonlinear_arith)
            requires
                a.interest >= 0,
                0 <= split.platform <= 100,
        ;
        lemma_half_even_within(a.interest * split.platform, 100, a.interest as int);
    }
    let (platform, reserve) = split_interest(a.interest, split);
    let postings = repayment_postings(received, a.principal, platform, reserve, a.excess);
    let (after, fully_paid) = loan_after_payment(false, outstanding_before, a.principal, schedule.as_slice());
    let rise = if fully_paid {
        Some(score_rise_at(due_dates, now))
    } else {
        None
    };
    let response = repay_response(received, a.interest, a.principal, a.excess, after, fully_paid, false, 0);
    RepaymentDecision { response, postings, score_rise_at: rise }
}

} // verus!
