//! The collateral outbox: what pins a vault movement for signing, and what
//! a confirmed movement is worth. The engine picks the numbers; the admin
//! only signs.

use vstd::prelude::*;

use crate::Refusal;
use crate::domain::collateral_value_centavos;
use crate::domain::loans::collateral_value;
use crate::text::str_eq;

verus! {

/// Which queued movement an admin means.
#[derive(Clone, Copy, Debug, PartialEq, Eq)]
pub struct ActionInput {
    pub action_id: i64,
}

/// The three numbers the vault's quote takes for a seizure.
#[derive(Clone, Copy, Debug, PartialEq, Eq)]
pub struct Quote {
    pub php_per_xlm_centavos: i64,
    pub usd_per_xlm_e8: i64,
    pub php_per_usd_centavos: i64,
}

/// Whether a queued movement may be prepared, and if so whether it needs a
/// price: a movement already executed is refused; so is one with an earlier
/// movement on the same position still unrecorded, since the vault executes
/// them in order; of the rest only a seizure is priced.
pub open spec fn prepare_outcome(action: Seq<char>, status: Seq<char>, earlier_pending: bool) -> Result<bool, Refusal> {
    if status != "queued"@ {
        Err(Refusal { status: 409, message: "That movement has already been executed" })
    } else if earlier_pending {
        Err(Refusal {
            status: 409,
            message: "An earlier movement on this position hasn't been recorded on-chain yet — the vault will refuse this one until it is. Sign them in the order they're listed",
        })
    } else {
        Ok(action == "seize"@)
    }
}

/// Decides whether a movement can be prepared for signing; `Ok(true)` when a
/// fresh quote has to be pinned onto it.
pub fn prepare_verdict(action: &str, status: &str, earlier_pending: bool) -> (r: Result<bool, Refusal>)
    ensures
        r == prepare_outcome(action@, status@, earlier_pending),
{
    if !str_eq(status, "queued") {
        return Err(Refusal { status: 409, message: "That movement has already been executed" });
    }
    if earlier_pending {
        return Err(Refusal {
            status: 409,
            message: "An earlier movement on this position hasn't been recorded on-chain yet — the vault will refuse this one until it is. Sign them in the order they're listed",
        });
    }
    Ok(str_eq(action, "seize"))
}

/// The member-facing line once a movement is prepared.
pub fn prepared_message(seizure: bool) -> (r: &'static str)
    ensures
        r == (if seizure {
            "Sign the seizure in your wallet, then confirm it with the transaction hash"
        } else {
            "Sign this movement in your wallet, then confirm it with the transaction hash"
        }),
{
    if seizure {
        "Sign the seizure in your wallet, then confirm it with the transaction hash"
    } else {
        "Sign this movement in your wallet, then confirm it with the transaction hash"
    }
}

/// What a confirmed movement is worth: a seizure is valued at the rate pinned
/// when it was prepared, never at one the caller names; a seizure never
/// prepared has no price and is refused. Other movements carry no value.
pub open spec fn movement_value(action: Seq<char>, stroops: Option<i64>, pinned_rate: Option<i64>) -> Result<Option<i64>, Refusal> {
    if action == "seize"@ {
        match (stroops, pinned_rate) {
            (Some(s), Some(rate)) => Ok(Some(collateral_value(s, rate))),
            (_, None) => Err(Refusal {
                status: 409,
                message: "That seizure was never prepared, so there is no checked price to value it at",
            }),
            (None, Some(_)) => Ok(None),
        }
    } else {
        Ok(None)
    }
}

/// Values a confirmed movement.
pub fn seizure_value(action: &str, stroops: Option<i64>, pinned_rate: Option<i64>) -> (r: Result<Option<i64>, Refusal>)
    ensures
        r == movement_value(action@, stroops, pinned_rate),
{
    if !str_eq(action, "seize") {
        return Ok(None);
    }
    match pinned_rate {
        None => Err(Refusal {
            status: 409,
            message: "That seizure was never prepared, so there is no checked price to value it at",
        }),
        Some(rate) => match stroops {
            Some(s) => Ok(Some(collateral_value_centavos(s, rate))),
            None => Ok(None),
        },
    }
}

/// A seizure's coins must have gone to the treasury; the contract takes the
/// destination from its caller, so this is the one movement where a wrong
/// destination is possible.
pub fn destination_check(action: &str, moved_to: Option<&str>, treasury: &str) -> (r: Result<(), Refusal>)
    ensures
        r == (if action@ == "seize"@ && (match moved_to {
            Some(to) => to@ != treasury@,
            None => false,
        }) {
            Err(Refusal {
                status: 422,
                message: "Those coins didn't go to the treasury address — that seizure will not be recorded",
            })
        } else {
            Ok(())
        }),
{
    if str_eq(action, "seize") {
        if let Some(to) = moved_to {
            if !str_eq(to, treasury) {
                return Err(Refusal {
                    status: 422,
                    message: "Those coins didn't go to the treasury address — that seizure will not be recorded",
                });
            }
        }
    }
    Ok(())
}

/// The line a confirmed movement is answered with.
pub fn confirmed_message(action: &str) -> (r: &'static str)
    ensures
        r == (if action@ == "release"@ {
            "Release confirmed on-chain — the collateral is back with the borrower"
        } else if action@ == "seize"@ {
            "Seizure confirmed on-chain and applied to the debt"
        } else {
            "Outcome recorded on-chain"
        }),
{
    if str_eq(action, "release") {
        "Release confirmed on-chain — the collateral is back with the borrower"
    } else if str_eq(action, "seize") {
        "Seizure confirmed on-chain and applied to the debt"
    } else {
        "Outcome recorded on-chain"
    }
}

} // verus!
