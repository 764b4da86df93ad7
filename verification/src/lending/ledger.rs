//! The books: every money movement is an event with postings that sum to
//! zero, and the one place a ledger failure becomes a member-facing answer.

use vstd::prelude::*;

use crate::Refusal;

verus! {

/// One line of a ledger event: an account and a signed amount in centavos.
#[derive(Clone, Copy, Debug, PartialEq, Eq)]
pub struct Posting {
    pub account: &'static str,
    pub amount: i64,
}

/// The sum of a run of postings.
pub open spec fn posted_total(ps: Seq<Posting>) -> int
    decreases ps.len(),
{
    if ps.len() == 0 {
        0
    } else {
        posted_total(ps.drop_last()) + ps.last().amount
    }
}

/// Postings that sum to zero: every centavo leaves one account for another.
pub open spec fn balanced(ps: Seq<Posting>) -> bool {
    posted_total(ps) == 0
}

pub proof fn lemma_posted_total_push(ps: Seq<Posting>, p: Posting)
    ensures
        posted_total(ps.push(p)) == posted_total(ps) + p.amount,
{
    assert(ps.push(p).drop_last() =~= ps);
}

/// Why the books refused an event.
#[derive(Clone, Copy, Debug, PartialEq, Eq)]
pub enum LedgerError {
    /// The postings did not sum to zero; carries the net.
    Unbalanced(i64),
    /// The payment reference was already credited once.
    DuplicateRail,
    /// The database failed.
    Db,
}

/// The engine's answer when the database fails under a request.
pub fn db_refusal() -> (r: Refusal)
    ensures
        r == (Refusal { status: 500, message: "Unable to process request" }),
{
    Refusal { status: 500, message: "Unable to process request" }
}

/// What a member is told when the books refuse: a payment already credited is
/// a conflict; anything else is an internal failure.
pub fn ledger_refusal(e: LedgerError) -> (r: Refusal)
    ensures
        r == (match e {
            LedgerError::DuplicateRail => Refusal {
                status: 409,
                message: "This payment was already processed",
            },
            _ => Refusal { status: 500, message: "Unable to process request" },
        }),
{
    match e {
        LedgerError::DuplicateRail => Refusal {
            status: 409,
            message: "This payment was already processed",
        },
        _ => db_refusal(),
    }
}

/// The balance check every event passes before it is written: refuses
/// postings that do not sum to zero, naming the net.
pub fn check_balanced(postings: &[Posting]) -> (r: Result<(), LedgerError>)
    requires
        forall|k: int|
            0 <= k <= postings@.len() ==> i64::MIN <= #[trigger] posted_total(postings@.take(k))
                <= i64::MAX,
    ensures
        r is Ok <==> balanced(postings@),
        r matches Err(e) ==> e == LedgerError::Unbalanced(posted_total(postings@) as i64),
{
    let n = postings.len();
    let mut net: i64 = 0;
    let mut i: usize = 0;
    assert(postings@.take(0) =~= Seq::<Posting>::empty());
    while i < n
        invariant
            i <= n,
            n == postings@.len(),
            net == posted_total(postings@.take(i as int)),
            forall|k: int|
                0 <= k <= postings@.len() ==> i64::MIN <= #[trigger] posted_total(postings@.take(k))
                    <= i64::MAX,
        decreases n - i,
    {
        assert(postings@.take(i + 1).drop_last() =~= postings@.take(i as int));
        assert(i64::MIN <= posted_total(postings@.take(i + 1)) <= i64::MAX);
        net = net + postings[i].amount;
        i = i + 1;
    }
    assert(postings@.take(n as int) =~= postings@);
    if net != 0 {
        Err(LedgerError::Unbalanced(net))
    } else {
        Ok(())
    }
}

} // verus!
