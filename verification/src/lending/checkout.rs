//! Starting a payment on either rail: what it is for, what the member is
//! shown, and where they land afterwards, all chosen here from a whitelisted
//! purpose and never assembled from what the page sent.

use vstd::prelude::*;

use super::drift::{uuid_hyphenated, uuid_string};
use super::shared::MAX_CENTAVOS;
use crate::Refusal;
use crate::text::str_eq;

verus! {

/// What a payment is for.
#[derive(Clone, Copy, Debug, PartialEq, Eq)]
pub enum PaymentPurpose {
    Deposit,
    Repay,
}

/// The page Stripe hosts for a payment.
#[derive(Clone, Debug)]
pub struct CheckoutResponse {
    pub url: String,
    pub session_id: String,
}

/// The answer to a member closing an unpaid checkout.
#[derive(Clone, Copy, Debug, PartialEq, Eq)]
pub struct CancelledResponse {
    pub cancelled: bool,
}

/// PayPal's order, for the buttons to approve.
#[derive(Clone, Debug)]
pub struct OrderResponse {
    pub order_id: String,
}

/// A Stripe checkout as decided before Stripe is asked for anything.
#[derive(Clone, Debug)]
pub struct CheckoutPlan {
    pub purpose: PaymentPurpose,
    /// For a deposit, the amount to reserve; a repayment's is what is due.
    pub amount: i64,
    pub description: String,
    pub success_path: String,
    pub cancel_path: String,
}

pub open spec fn unknown_purpose() -> Refusal {
    Refusal { status: 422, message: "Unknown payment purpose" }
}

pub open spec fn which_loan() -> Refusal {
    Refusal { status: 422, message: "Which loan is this repaying?" }
}

pub open spec fn invalid_amount() -> Refusal {
    Refusal { status: 422, message: "Invalid amount" }
}

/// Where a Stripe checkout refuses: an unknown purpose; a deposit of an
/// amount that is not positive or past the cap; a repayment naming no loan.
pub open spec fn checkout_refusal(purpose: Seq<char>, amount: i64, loan_id: Option<Seq<char>>) -> Option<Refusal> {
    if purpose == "deposit"@ {
        if amount <= 0 || amount > MAX_CENTAVOS {
            Some(invalid_amount())
        } else {
            None
        }
    } else if purpose == "repay"@ {
        if loan_id is None {
            Some(which_loan())
        } else {
            None
        }
    } else {
        Some(unknown_purpose())
    }
}

/// What deciding a Stripe checkout gives: the refusal where there is one;
/// otherwise a deposit goes back to the lending page, a repayment back to its
/// loan's payment page.
pub open spec fn checkout_decided(
    purpose: Seq<char>,
    amount: i64,
    loan_id: Option<Seq<char>>,
    r: Result<CheckoutPlan, Refusal>,
) -> bool {
    match checkout_refusal(purpose, amount, loan_id) {
        Some(e) => r == Err::<CheckoutPlan, Refusal>(e),
        None => r is Ok && ({
            let p = r->Ok_0;
            if purpose == "deposit"@ {
                &&& p.purpose == PaymentPurpose::Deposit
                &&& p.amount == amount
                &&& p.description@ == "PrimeLendRow pool deposit"@
                &&& p.success_path@ == "/lending"@
                &&& p.cancel_path@ == "/lending"@
            } else {
                &&& p.purpose == PaymentPurpose::Repay
                &&& p.description@ == "PrimeLendRow loan repayment"@
                &&& p.success_path@ == "/pay?loan="@ + loan_id->0
                &&& p.cancel_path@ == "/pay?loan="@ + loan_id->0
            }
        }),
    }
}

/// Decides a Stripe checkout: a deposit goes back to the lending page, a
/// repayment back to its loan's payment page.
pub fn checkout_plan(purpose: &str, amount: i64, loan_id: Option<&str>) -> (r: Result<CheckoutPlan, Refusal>)
    ensures
        checkout_decided(
            purpose@,
            amount,
            match loan_id {
                Some(l) => Some(l@),
                None => None,
            },
            r,
        ),
{
    if str_eq(purpose, "deposit") {
        if amount <= 0 || amount > MAX_CENTAVOS {
            return Err(Refusal { status: 422, message: "Invalid amount" });
        }
        return Ok(CheckoutPlan {
            purpose: PaymentPurpose::Deposit,
            amount,
            description: "PrimeLendRow pool deposit".to_string(),
            success_path: "/lending".to_string(),
            cancel_path: "/lending".to_string(),
        });
    }
    if str_eq(purpose, "repay") {
        match loan_id {
            None => return Err(Refusal { status: 422, message: "Which loan is this repaying?" }),
            Some(id) => {
                let back = String::from_str("/pay?loan=").concat(id);
                let back2 = String::from_str("/pay?loan=").concat(id);
                return Ok(CheckoutPlan {
                    purpose: PaymentPurpose::Repay,
                    amount,
                    description: "PrimeLendRow loan repayment".to_string(),
                    success_path: back,
                    cancel_path: back2,
                });
            },
        }
    }
    Err(Refusal { status: 422, message: "Unknown payment purpose" })
}

/// Decides a Stripe checkout for a loan named by its id: the payment pages
/// carry the id in its hyphenated lowercase form.
pub fn loan_checkout_plan(purpose: &str, amount: i64, loan_id: Option<u128>) -> (r: Result<
    CheckoutPlan,
    Refusal,
>)
    ensures
        checkout_decided(
            purpose@,
            amount,
            match loan_id {
                Some(id) => Some(uuid_hyphenated(id)),
                None => None,
            },
            r,
        ),
{
    match loan_id {
        Some(id) => {
            let text = uuid_string(id);
            checkout_plan(purpose, amount, Some(text.as_str()))
        },
        None => checkout_plan(purpose, amount, None),
    }
}

/// Where a PayPal order refuses: a repayment naming no loan; a deposit of an
/// amount that is not positive; an unknown purpose.
pub open spec fn order_refusal(purpose: Seq<char>, amount: i64, loan_id: Option<Seq<char>>) -> Option<Refusal> {
    if purpose == "repay"@ {
        if loan_id is None {
            Some(which_loan())
        } else {
            None
        }
    } else if purpose == "deposit"@ {
        if amount <= 0 {
            Some(invalid_amount())
        } else {
            None
        }
    } else {
        Some(unknown_purpose())
    }
}

/// Decides a PayPal order: what it is for and the description the member
/// sees on PayPal's own page.
pub fn order_plan(purpose: &str, amount: i64, loan_id: Option<&str>) -> (r: Result<(PaymentPurpose, String), Refusal>)
    ensures
        match order_refusal(purpose@, amount, match loan_id { Some(l) => Some(l@), None => None }) {
            Some(e) => r == Err::<(PaymentPurpose, String), Refusal>(e),
            None => r is Ok && (if purpose@ == "repay"@ {
                &&& r->Ok_0.0 == PaymentPurpose::Repay
                &&& r->Ok_0.1@ == "PrimeLendRow loan repayment "@ + loan_id->0@
            } else {
                &&& r->Ok_0.0 == PaymentPurpose::Deposit
                &&& r->Ok_0.1@ == "PrimeLendRow pool deposit"@
            }),
        },
{
    if str_eq(purpose, "repay") {
        return match loan_id {
            None => Err(Refusal { status: 422, message: "Which loan is this repaying?" }),
            Some(id) => Ok((PaymentPurpose::Repay, String::from_str("PrimeLendRow loan repayment ").concat(id))),
        };
    }
    if str_eq(purpose, "deposit") {
        if amount <= 0 {
            return Err(Refusal { status: 422, message: "Invalid amount" });
        }
        return Ok((PaymentPurpose::Deposit, "PrimeLendRow pool deposit".to_string()));
    }
    Err(Refusal { status: 422, message: "Unknown payment purpose" })
}

/// Which live checkout a member is closing.
pub fn cancel_purpose(purpose: &str) -> (r: Result<&'static str, Refusal>)
    ensures
        r == (if purpose@ == "deposit"@ {
            Ok::<&'static str, Refusal>("deposit")
        } else if purpose@ == "repay"@ {
            Ok("repay")
        } else {
            Err(unknown_purpose())
        }),
{
    if str_eq(purpose, "deposit") {
        Ok("deposit")
    } else if str_eq(purpose, "repay") {
        Ok("repay")
    } else {
        Err(Refusal { status: 422, message: "Unknown payment purpose" })
    }
}

} // verus!
