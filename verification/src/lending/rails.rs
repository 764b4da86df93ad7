//! The payment rails money arrives on: a PayPal order or a Stripe checkout
//! session, never both.

use vstd::prelude::*;
use vstd::string::{StrSliceExecFns, StringExecFns};

use crate::Refusal;
use crate::text::{trim, trimmed};

verus! {

/// A payment the member says they made: a PayPal order id or a Stripe
/// session id.
#[derive(Clone, Debug)]
pub struct PaymentRef {
    pub order_id: Option<String>,
    pub session_id: Option<String>,
}

/// What a provider confirmed it captured.
#[derive(Clone, Debug)]
pub struct CapturedPayment {
    pub centavos: i64,
    pub capture_id: String,
    /// The provider's own fee, when it reported one.
    pub fee: Option<i64>,
}

/// A captured payment and the rail it came in on.
#[derive(Clone, Debug)]
pub struct Captured {
    pub rail: &'static str,
    pub payment: CapturedPayment,
}

/// A reference as it counts: trimmed, and absent when blank.
pub open spec fn given(r: Option<String>) -> Option<Seq<char>> {
    match r {
        Some(s) => if trimmed(s@).len() > 0 {
            Some(trimmed(s@))
        } else {
            None
        },
        None => None,
    }
}

fn given_ref(r: &Option<String>) -> (out: Option<String>)
    ensures
        match given(*r) {
            Some(t) => out is Some && out->0@ == t,
            None => out is None,
        },
{
    match r {
        Some(s) => {
            let t = trim(s.as_str());
            if t.unicode_len() > 0 {
                Some(String::from_str(t))
            } else {
                None
            }
        },
        None => None,
    }
}

/// Which rail to capture on, and the trimmed reference to capture.
pub fn payment_rail(p: &PaymentRef) -> (r: Result<(&'static str, String), Refusal>)
    ensures
        match (given(p.order_id), given(p.session_id)) {
            (Some(_), Some(_)) => r == Err::<(&'static str, String), Refusal>(
                Refusal {
                    status: 422,
                    message: "Send either a PayPal order or a Stripe session, not both",
                },
            ),
            (Some(o), None) => r is Ok && r->Ok_0.0 == "paypal" && r->Ok_0.1@ == o,
            (None, Some(s)) => r is Ok && r->Ok_0.0 == "stripe" && r->Ok_0.1@ == s,
            (None, None) => r == Err::<(&'static str, String), Refusal>(
                Refusal { status: 422, message: "No payment reference — nothing to confirm" },
            ),
        },
{
    match (given_ref(&p.order_id), given_ref(&p.session_id)) {
        (Some(_), Some(_)) => Err(
            Refusal {
                status: 422,
                message: "Send either a PayPal order or a Stripe session, not both",
            },
        ),
        (Some(o), None) => Ok(("paypal", o)),
        (None, Some(s)) => Ok(("stripe", s)),
        (None, None) => Err(Refusal { status: 422, message: "No payment reference — nothing to confirm" }),
    }
}

} // verus!
