//! Crediting a captured deposit: what the member is credited, what the
//! provider kept, and the books for it.

use vstd::prelude::*;

use super::ledger::{Posting, balanced, lemma_posted_total_push, posted_total};
use super::rails::PaymentRef;

verus! {

/// A deposit the member says they paid.
#[derive(Clone, Debug)]
pub struct DepositInput {
    pub payment: PaymentRef,
}

/// How one captured deposit is credited.
#[derive(Clone, Copy, Debug, PartialEq, Eq)]
pub struct DepositCredit {
    /// What the provider kept, as it reported it or as estimated.
    pub provider_fee: i64,
    /// What lands in the member's deposits.
    pub credited: i64,
    /// What the member was charged beyond the credit.
    pub fee_paid: i64,
    /// Where the member's fee and the provider's differ.
    pub fee_variance: i64,
}

/// Why a captured deposit is handed back instead of credited.
pub open spec fn credit_refusal(captured: i64, intended: i64, credited: int) -> Option<&'static str> {
    if captured != intended {
        Some("deposit amount did not match its intent")
    } else if credited <= 0 {
        Some("the provider fee left nothing to credit")
    } else {
        None
    }
}

/// Credits a captured deposit. The provider's reported fee is used when it
/// gave one, else the estimate; the member is credited what the intent said
/// applies, else the gross less that fee. The amount captured must be the
/// amount intended, and something must be left to credit; otherwise the
/// reason for refunding it is returned.
pub fn deposit_credit(
    captured: i64,
    intended: i64,
    reported_fee: Option<i64>,
    estimated_fee: i64,
    applies: Option<i64>,
) -> (r: Result<DepositCredit, &'static str>)
    requires
        captured == intended ==> {
            let pf = match reported_fee {
                Some(f) => f,
                None => estimated_fee,
            };
            &&& i64::MIN <= captured - pf <= i64::MAX
            &&& i64::MIN <= captured - (match applies {
                Some(a) => a as int,
                None => captured - pf,
            }) <= i64::MAX
            &&& i64::MIN <= captured - (match applies {
                Some(a) => a as int,
                None => captured - pf,
            }) - pf <= i64::MAX
        },
    ensures
        ({
            let pf = match reported_fee {
                Some(f) => f,
                None => estimated_fee,
            };
            let credited = match applies {
                Some(a) => a as int,
                None => captured - pf,
            };
            match credit_refusal(captured, intended, credited) {
                Some(why) => r == Err::<DepositCredit, &'static str>(why),
                None => r == Ok::<DepositCredit, &'static str>(
                    DepositCredit {
                        provider_fee: pf,
                        credited: credited as i64,
                        fee_paid: (captured - credited) as i64,
                        fee_variance: (captured - credited - pf) as i64,
                    },
                ),
            }
        }),
{
    if captured != intended {
        return Err("deposit amount did not match its intent");
    }
    let provider_fee = match reported_fee {
        Some(f) => f,
        None => estimated_fee,
    };
    let credited = match applies {
        Some(a) => a,
        None => captured - provider_fee,
    };
    let fee_paid = captured - credited;
    let fee_variance = fee_paid - provider_fee;
    if credited <= 0 {
        return Err("the provider fee left nothing to credit");
    }
    Ok(DepositCredit { provider_fee, credited, fee_paid, fee_variance })
}

/// The books for a credited deposit: the cash the pool actually received,
/// the member's credit, and any difference between the fee the member paid
/// and the one the provider kept. They always balance.
pub fn deposit_postings(gross: i64, c: DepositCredit) -> (r: Vec<Posting>)
    requires
        c.fee_paid == gross - c.credited,
        c.fee_variance == c.fee_paid - c.provider_fee,
        i64::MIN <= gross - c.provider_fee <= i64::MAX,
        c.credited > i64::MIN,
        c.fee_variance > i64::MIN,
    ensures
        r@ == (if c.fee_variance != 0 {
            seq![
                Posting { account: "cash", amount: (gross - c.provider_fee) as i64 },
                Posting { account: "member_deposits", amount: (-c.credited) as i64 },
                Posting { account: "payment_fee_variance", amount: (-c.fee_variance) as i64 },
            ]
        } else {
            seq![
                Posting { account: "cash", amount: (gross - c.provider_fee) as i64 },
                Posting { account: "member_deposits", amount: (-c.credited) as i64 },
            ]
        }),
        balanced(r@),
{
    let mut ps: Vec<Posting> = Vec::new();
    let a = Posting { account: "cash", amount: gross - c.provider_fee };
    let b = Posting { account: "member_deposits", amount: -c.credited };
    proof {
        lemma_posted_total_push(ps@, a);
        lemma_posted_total_push(ps@.push(a), b);
    }
    ps.push(a);
    ps.push(b);
    if c.fee_variance != 0 {
        let v = Posting { account: "payment_fee_variance", amount: -c.fee_variance };
        proof {
            lemma_posted_total_push(ps@, v);
        }
        ps.push(v);
        assert(ps@ =~= seq![a, b, v]);
    } else {
        assert(ps@ =~= seq![a, b]);
    }
    assert(posted_total(Seq::<Posting>::empty()) == 0);
    ps
}

} // verus!
