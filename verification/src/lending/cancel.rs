//! Cancelling an application that has not funded yet.

use vstd::prelude::*;

use crate::Refusal;
use crate::text::str_eq;

verus! {

/// Only the borrower's own application, still pending, that no guarantor has
/// backed and whose coins are not locked in the vault, can be cancelled.
/// `loan` is whether the caller is the borrower and the loan's status;
/// `position` is the status of its XLM position, if it has one.
pub fn check_cancellable(loan: Option<(bool, &str)>, accepted: i64, position: Option<&str>) -> (r: Result<(), Refusal>)
    ensures
        r == (match loan {
            None => Err(Refusal { status: 404, message: "No such loan" }),
            Some((mine, status)) => if !mine {
                Err(Refusal { status: 404, message: "No such loan" })
            } else if status@ != "pending"@ {
                Err(
                    Refusal {
                        status: 409,
                        message: "Only an application that hasn't funded yet can be cancelled",
                    },
                )
            } else if accepted > 0 {
                Err(
                    Refusal {
                        status: 409,
                        message: "A guarantor has already backed this loan — ask them to decline it instead, and it closes itself",
                    },
                )
            } else if position matches Some(p) && p@ == "locked"@ {
                Err(
                    Refusal {
                        status: 409,
                        message: "Your XLM is already locked in the vault — it has to be released on-chain, so this application can't just be cancelled",
                    },
                )
            } else {
                Ok(())
            },
        }),
{
    match loan {
        None => Err(Refusal { status: 404, message: "No such loan" }),
        Some((mine, status)) => {
            if !mine {
                return Err(Refusal { status: 404, message: "No such loan" });
            }
            if !str_eq(status, "pending") {
                return Err(
                    Refusal {
                        status: 409,
                        message: "Only an application that hasn't funded yet can be cancelled",
                    },
                );
            }
            if accepted > 0 {
                return Err(
                    Refusal {
                        status: 409,
                        message: "A guarantor has already backed this loan — ask them to decline it instead, and it closes itself",
                    },
                );
            }
            if let Some(p) = position {
                if str_eq(p, "locked") {
                    return Err(
                        Refusal {
                            status: 409,
                            message: "Your XLM is already locked in the vault — it has to be released on-chain, so this application can't just be cancelled",
                        },
                    );
                }
            }
            Ok(())
        },
    }
}

/// What the member is told once the application is cancelled.
pub fn cancel_message(released: i64) -> (r: &'static str)
    ensures
        r == (if released > 0 {
            "Application cancelled — your deposit is withdrawable again"
        } else {
            "Application cancelled"
        }),
{
    if released > 0 {
        "Application cancelled — your deposit is withdrawable again"
    } else {
        "Application cancelled"
    }
}

} // verus!
