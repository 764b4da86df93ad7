//! A member's own credit score and identity-check status, as their pages read them.

use vstd::prelude::*;
use vstd::string::StringExecFns;
use crate::text::str_eq;

verus! {

#[derive(Clone, Copy, Debug, PartialEq, Eq)]
pub struct CreditScoreResponse {
    pub score: i16,
    pub updated_at: i64,
}

/// The score row `(score, updated_at)`, or the opening 50 for an account that
/// predates the row every new account gets.
pub fn credit_score(row: Option<(i16, i64)>) -> (r: CreditScoreResponse)
    ensures
        row matches Some(found) ==> r.score == found.0 && r.updated_at == found.1,
        row is None ==> r.score == 50 && r.updated_at == 0,
{
    match row {
        Some((score, updated_at)) => CreditScoreResponse { score, updated_at },
        None => CreditScoreResponse { score: 50, updated_at: 0 },
    }
}

#[derive(Clone, Debug, PartialEq, Eq)]
pub struct KycStatusResponse {
    /// "none" | "verifying" | "approved" | "rejected"
    pub status: String,
    pub submitted_at: Option<i64>,
    pub reviewed_at: Option<i64>,
    /// Only ever present on the owner's own rejected submission.
    pub rejection_reason: Option<String>,
}

/// The owner's view of their latest submission
/// `(status, submitted_at, reviewed_at, rejection_reason)`: no personal data,
/// and a rejection reason only on a rejection.
pub fn kyc_status(row: Option<(String, i64, Option<i64>, Option<String>)>) -> (r: KycStatusResponse)
    ensures
        row is None ==> r.status@ == "none"@ && r.submitted_at is None && r.reviewed_at is None
            && r.rejection_reason is None,
        row matches Some(found) ==> {
            &&& r.status@ == found.0@
            &&& r.submitted_at == Some(found.1)
            &&& r.reviewed_at == found.2
            &&& r.rejection_reason == if found.0@ == "rejected"@ {
                found.3
            } else {
                None
            }
        },
{
    match row {
        None => KycStatusResponse {
            status: String::from_str("none"),
            submitted_at: None,
            reviewed_at: None,
            rejection_reason: None,
        },
        Some((status, submitted_at, reviewed_at, rejection_reason)) => {
            let rejected = str_eq(status.as_str(), "rejected");
            KycStatusResponse {
                status,
                submitted_at: Some(submitted_at),
                reviewed_at,
                rejection_reason: if rejected {
                    rejection_reason
                } else {
                    None
                },
            }
        },
    }
}

} // verus!
