//! Turning an on-chain lock into a disbursed loan: the checks the engine
//! makes around what the chain says was locked.

use vstd::prelude::*;

use crate::Refusal;
use crate::text::{str_eq, trim, trimmed};

verus! {

/// Only a position still waiting for its lock can be confirmed.
pub fn check_position_pending(status: &str) -> (r: Result<(), Refusal>)
    ensures
        r == (if status@ == "pending"@ {
            Ok(())
        } else {
            Err(Refusal { status: 409, message: "This loan's collateral is already settled" })
        }),
{
    if !str_eq(status, "pending") {
        return Err(Refusal { status: 409, message: "This loan's collateral is already settled" });
    }
    Ok(())
}

/// What the chain shows locked must reach what was required when the loan
/// was priced.
pub fn check_locked_enough(locked_stroops: i64, required_stroops: i64) -> (r: Result<(), Refusal>)
    ensures
        r == (if locked_stroops < required_stroops {
            Err(Refusal { status: 422, message: "The locked amount is below the required 120% collateral" })
        } else {
            Ok(())
        }),
{
    if locked_stroops < required_stroops {
        return Err(Refusal { status: 422, message: "The locked amount is below the required 120% collateral" });
    }
    Ok(())
}

/// Re-checked under the loan's lock: it is still the member's and still
/// waiting for its collateral.
pub fn check_loan_awaiting(borrower_id: u128, user_id: u128, loan_status: &str) -> (r: Result<(), Refusal>)
    ensures
        r == (if borrower_id != user_id || loan_status@ != "pending"@ {
            Err(Refusal { status: 409, message: "This loan is not awaiting collateral" })
        } else {
            Ok(())
        }),
{
    if borrower_id != user_id || !str_eq(loan_status, "pending") {
        return Err(Refusal { status: 409, message: "This loan is not awaiting collateral" });
    }
    Ok(())
}

/// The ledger reference of a lock: the chain transaction, trimmed. One
/// transaction credits one position, ever.
pub fn lock_rail_ref(tx_hash: &str) -> (r: String)
    ensures
        r@ == "stellar:"@ + trimmed(tx_hash@),
{
    String::from_str("stellar:").concat(trim(tx_hash))
}

} // verus!
