//! A guarantor answering an invitation: a decline can sink the application,
//! an accept can be the pledge that funds the loan.

use vstd::prelude::*;
use vstd::string::StringExecFns;

use crate::Refusal;
use crate::text::str_eq;

verus! {

/// What the guarantor is told after answering.
#[derive(Clone, Debug)]
pub struct RespondResponse {
    pub status: &'static str,
    pub loan_status: String,
    pub message: &'static str,
}

/// The invitation must exist, be addressed to the caller, and not have been
/// answered yet. `invite` is its status, when found.
pub fn check_invite(invite: Option<&str>) -> (r: Result<(), Refusal>)
    ensures
        r == (match invite {
            None => Err(Refusal { status: 404, message: "Invitation not found" }),
            Some(s) => if s@ != "invited"@ {
                Err(Refusal { status: 409, message: "You've already responded to this invitation" })
            } else {
                Ok(())
            },
        }),
{
    match invite {
        None => Err(Refusal { status: 404, message: "Invitation not found" }),
        Some(s) => {
            if !str_eq(s, "invited") {
                Err(Refusal { status: 409, message: "You've already responded to this invitation" })
            } else {
                Ok(())
            }
        },
    }
}

/// The loan must still be waiting on its guarantors. `loan` is its status,
/// when found.
pub fn check_loan_waiting(loan: Option<&str>) -> (r: Result<(), Refusal>)
    ensures
        r == (match loan {
            None => Err(Refusal { status: 404, message: "Loan not found" }),
            Some(s) => if s@ != "pending"@ {
                Err(Refusal { status: 409, message: "This loan is no longer waiting on guarantors" })
            } else {
                Ok(())
            },
        }),
{
    match loan {
        None => Err(Refusal { status: 404, message: "Loan not found" }),
        Some(s) => {
            if !str_eq(s, "pending") {
                Err(Refusal { status: 409, message: "This loan is no longer waiting on guarantors" })
            } else {
                Ok(())
            }
        },
    }
}

/// After a decline: when the pledges still standing (accepted or still
/// invited) can no longer cover the principal, the application is dead and
/// every frozen pledge is freed. Returns that verdict and the answer.
pub fn after_decline(remaining: i64, principal: i64) -> (r: (bool, RespondResponse))
    ensures
        r.0 == (remaining < principal),
        r.1.status == "declined",
        r.1.loan_status@ == (if r.0 {
            "declined"@
        } else {
            "pending"@
        }),
        r.1.message == "Invitation declined",
{
    let dead = remaining < principal;
    let loan_status = if dead {
        String::from_str("declined")
    } else {
        String::from_str("pending")
    };
    (dead, RespondResponse { status: "declined", loan_status, message: "Invitation declined" })
}

/// After an accept: the moment accepted pledges cover the principal, the loan
/// funds. Returns whether to disburse, and the answer.
pub fn after_accept(accepted: i64, principal: i64) -> (r: (bool, RespondResponse))
    ensures
        r.0 == (accepted >= principal),
        r.1.status == "accepted",
        r.1.loan_status@ == (if r.0 {
            "active"@
        } else {
            "pending"@
        }),
        r.1.message == (if r.0 {
            "Pledge locked — the loan is now fully backed and has been disbursed"
        } else {
            "Pledge locked — waiting on the remaining guarantors"
        }),
{
    if accepted >= principal {
        (
            true,
            RespondResponse {
                status: "accepted",
                loan_status: String::from_str("active"),
                message: "Pledge locked — the loan is now fully backed and has been disbursed",
            },
        )
    } else {
        (
            false,
            RespondResponse {
                status: "accepted",
                loan_status: String::from_str("pending"),
                message: "Pledge locked — waiting on the remaining guarantors",
            },
        )
    }
}

} // verus!
