//! The member's linked PayPal account.

use vstd::prelude::*;
use super::{mask, masked};

verus! {

#[derive(Clone, Debug, PartialEq, Eq)]
pub struct AccountStatus {
    pub connected: bool,
    /// "j•••@gmail.com": enough to recognise, not enough to reuse.
    pub email_masked: Option<String>,
    /// PayPal's own word on whether the account is verified.
    pub verified: bool,
    pub connected_at: Option<i64>,
    /// False when this deployment cannot run the connect flow.
    pub paypal_ready: bool,
}

#[derive(Clone, Copy, Debug, PartialEq, Eq)]
pub struct DisconnectResponse {
    pub message: &'static str,
}

/// What the member sees of their active PayPal account, from its row
/// `(email, verified, connected_at)` if there is one.
pub fn account_status(row: Option<(String, bool, i64)>, paypal_ready: bool) -> (r: AccountStatus)
    ensures
        r.paypal_ready == paypal_ready,
        row is None ==> !r.connected && r.email_masked is None && !r.verified && r.connected_at is None,
        row matches Some(found) ==> r.connected && r.email_masked is Some && r.email_masked->0@
            == masked(found.0@) && r.verified == found.1 && r.connected_at == Some(found.2),
{
    match row {
        Some((email, verified, connected_at)) => AccountStatus {
            connected: true,
            email_masked: Some(mask(email.as_str())),
            verified,
            connected_at: Some(connected_at),
            paypal_ready,
        },
        None => AccountStatus {
            connected: false,
            email_masked: None,
            verified: false,
            connected_at: None,
            paypal_ready,
        },
    }
}

pub fn disconnected() -> (r: DisconnectResponse)
    ensures
        r.message@ == "PayPal disconnected — connect an account again before withdrawing"@,
{
    DisconnectResponse { message: "PayPal disconnected — connect an account again before withdrawing" }
}

/// Where to send the member to link their PayPal account.
#[derive(Clone, Debug)]
pub struct StartResponse {
    pub url: String,
}

/// What PayPal sends back to the callback.
#[derive(Clone, Debug)]
pub struct CallbackQuery {
    pub code: Option<String>,
    pub state: Option<String>,
    pub error: Option<String>,
}

pub open spec fn callback_verdict(q: CallbackQuery) -> Result<(Seq<char>, Seq<char>), &'static str> {
    if q.error is Some {
        Err("declined")
    } else if q.code is None {
        Err("nocode")
    } else if q.state is None {
        Err("nostate")
    } else {
        Ok((q.code->0@, q.state->0@))
    }
}

/// The authorisation code and the `state` token, unless the member declined
/// or PayPal left one out. The refusal is the reason the client is shown.
pub fn link_fields(q: CallbackQuery) -> (r: Result<(String, String), &'static str>)
    ensures
        match callback_verdict(q) {
            Ok((code, state)) => r is Ok && r->Ok_0.0@ == code && r->Ok_0.1@ == state,
            Err(why) => r == Err::<(String, String), &'static str>(why),
        },
{
    if q.error.is_some() {
        return Err("declined");
    }
    let code = match q.code {
        Some(c) => c,
        None => return Err("nocode"),
    };
    let state = match q.state {
        Some(s) => s,
        None => return Err("nostate"),
    };
    Ok((code, state))
}

} // verus!
