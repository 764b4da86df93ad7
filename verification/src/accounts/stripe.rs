//! The member's linked Stripe account.

use vstd::prelude::*;
use vstd::string::StrSliceExecFns;
use super::{mask, masked};

verus! {

#[derive(Clone, Debug, PartialEq, Eq)]
pub struct AccountStatus {
    /// True only when the account can actually receive money.
    pub connected: bool,
    /// True when a row exists but Stripe has not cleared it yet.
    pub onboarding: bool,
    /// "j•••@gmail.com": enough to recognise, not enough to reuse.
    pub email_masked: Option<String>,
    /// Stripe's own word on whether money may be sent to this account.
    pub payouts_enabled: bool,
    pub connected_at: Option<i64>,
    /// False when this deployment cannot run onboarding.
    pub stripe_ready: bool,
}

#[derive(Clone, Copy, Debug, PartialEq, Eq)]
pub struct DisconnectResponse {
    pub message: &'static str,
}

impl AccountStatus {
    /// A row whose form was never submitted is mid-onboarding no matter what
    /// else is true of it.
    pub fn with_details(self, details_submitted: bool) -> (r: Self)
        ensures
            details_submitted ==> r == self,
            !details_submitted ==> r == (AccountStatus { onboarding: true, connected: false, ..self }),
    {
        let mut s = self;
        if !details_submitted {
            s.onboarding = true;
            s.connected = false;
        }
        s
    }
}

/// What the member sees of their active Stripe account, from its row
/// `(email, payouts_enabled, details_submitted, connected_at)` if there is one.
pub fn account_status(row: Option<(String, bool, bool, i64)>, stripe_ready: bool) -> (r: AccountStatus)
    ensures
        r.stripe_ready == stripe_ready,
        row is None ==> !r.connected && !r.onboarding && r.email_masked is None && !r.payouts_enabled
            && r.connected_at is None,
        row matches Some(found) ==> {
            &&& r.connected == (found.1 && found.2)
            &&& r.onboarding == (!found.1 || !found.2)
            &&& r.payouts_enabled == found.1
            &&& r.connected_at == Some(found.3)
            &&& (found.0@.len() == 0 <==> r.email_masked is None)
            &&& r.email_masked matches Some(m) ==> m@ == masked(found.0@)
        },
{
    match row {
        Some((email, payouts_enabled, details_submitted, connected_at)) => {
            let shown = if email.as_str().unicode_len() == 0 {
                None
            } else {
                Some(mask(email.as_str()))
            };
            AccountStatus {
                connected: payouts_enabled,
                onboarding: !payouts_enabled,
                email_masked: shown,
                payouts_enabled,
                connected_at: Some(connected_at),
                stripe_ready,
            }.with_details(details_submitted)
        },
        None => AccountStatus {
            connected: false,
            onboarding: false,
            email_masked: None,
            payouts_enabled: false,
            connected_at: None,
            stripe_ready,
        },
    }
}

pub fn disconnected() -> (r: DisconnectResponse)
    ensures
        r.message@ == "Stripe disconnected — connect an account again before withdrawing"@,
{
    DisconnectResponse { message: "Stripe disconnected — connect an account again before withdrawing" }
}

/// Where to send the member to finish Stripe onboarding.
#[derive(Clone, Debug)]
pub struct StartResponse {
    pub url: String,
}

/// What Stripe sends back to the return address.
#[derive(Clone, Debug)]
pub struct CallbackQuery {
    pub state: Option<String>,
}

/// The `state` token Stripe hands back, or the reason it is missing.
pub fn onboarding_state(q: CallbackQuery) -> (r: Result<String, &'static str>)
    ensures
        match q.state {
            Some(s) => r is Ok && r->Ok_0@ == s@,
            None => r == Err::<String, &'static str>("nostate"),
        },
{
    match q.state {
        Some(s) => Ok(s),
        None => Err("nostate"),
    }
}

} // verus!
