//! What a signed Stripe event asks the engine to do. The event is never
//! itself evidence of money: a completed checkout is a prompt to go and read
//! the session, and only a deposit is credited this way.

use vstd::prelude::*;

use crate::text::str_eq;

verus! {

/// The value of a hex digit in either case, or none.
pub open spec fn hex_value(c: char) -> Option<int> {
    if '0' <= c <= '9' {
        Some(c as int - '0' as int)
    } else if 'a' <= c <= 'f' {
        Some(c as int - 'a' as int + 10)
    } else if 'A' <= c <= 'F' {
        Some(c as int - 'A' as int + 10)
    } else {
        None
    }
}

/// Whether every character is a hex digit.
pub open spec fn all_hex(ds: Seq<char>) -> bool {
    forall|i: int| 0 <= i < ds.len() ==> (#[trigger] hex_value(ds[i])) is Some
}

/// The number hex digits spell, most significant first.
pub open spec fn hex_number(ds: Seq<char>) -> int
    decreases ds.len(),
{
    if ds.len() == 0 {
        0
    } else {
        hex_number(ds.drop_last()) * 16 + hex_value(ds.last())->0
    }
}

/// The thirty-two digits of a hyphenated id, hyphens skipped.
pub open spec fn hyphenated_digits(s: Seq<char>) -> Seq<char> {
    Seq::new(
        32,
        |k: int|
            s[if k < 8 {
                k
            } else if k < 12 {
                k + 1
            } else if k < 16 {
                k + 2
            } else if k < 20 {
                k + 3
            } else {
                k + 4
            }],
    )
}

/// Thirty-six characters with hyphens at 8, 13, 18 and 23 and hex digits
/// everywhere else.
pub open spec fn hyphenated_ok(s: Seq<char>) -> bool {
    &&& s.len() == 36
    &&& s[8] == '-' && s[13] == '-' && s[18] == '-' && s[23] == '-'
    &&& all_hex(hyphenated_digits(s))
}

/// An ASCII letter in lower case; anything else as it is.
pub open spec fn ascii_lower(c: char) -> char {
    if 'A' <= c <= 'Z' {
        (c as int + 32) as char
    } else {
        c
    }
}

/// `urn:uuid:` in any mix of cases.
pub open spec fn urn_prefix(p: Seq<char>) -> bool {
    p.len() == 9 && forall|i: int| 0 <= i < 9 ==> ascii_lower(#[trigger] p[i]) == "urn:uuid:"@[i]
}

/// The id a text names, in the four forms `uuid` reads: thirty-two hex
/// digits; the hyphenated form; the hyphenated form in braces; or the
/// hyphenated form after `urn:uuid:` in any case. Hex digits may be of
/// either case. Any other text names no id.
pub open spec fn uuid_text(s: Seq<char>) -> Option<u128> {
    if s.len() == 32 && all_hex(s) {
        Some(hex_number(s) as u128)
    } else if hyphenated_ok(s) {
        Some(hex_number(hyphenated_digits(s)) as u128)
    } else if s.len() == 38 && s[0] == '{' && s[37] == '}' && hyphenated_ok(s.subrange(1, 37)) {
        Some(hex_number(hyphenated_digits(s.subrange(1, 37))) as u128)
    } else if s.len() == 45 && urn_prefix(s.take(9)) && hyphenated_ok(s.skip(9)) {
        Some(hex_number(hyphenated_digits(s.skip(9))) as u128)
    } else {
        None
    }
}

/// Reads an id with `uuid::Uuid::parse_str` and `as_u128`. Claimed, from the
/// crate's parser: the four forms above are read, digit by digit, most
/// significant first; any other text is refused.
#[verifier::external_body]
pub(crate) fn parse_member_id(s: &str) -> (r: Option<u128>)
    ensures
        r == uuid_text(s@),
{
    match uuid::Uuid::parse_str(s) {
        Ok(id) => Some(id.as_u128()),
        Err(_) => None,
    }
}

/// The fields of an event's object that the handled events read.
#[derive(Clone, Debug)]
pub struct EventObject {
    pub id: Option<String>,
    pub email: Option<String>,
    pub payouts_enabled: Option<bool>,
    pub details_submitted: Option<bool>,
    /// The member a checkout session was created for.
    pub client_reference_id: Option<String>,
    /// What the session was for, as stamped when it was created.
    pub purpose: Option<String>,
}

/// What the engine does about an event.
#[derive(Clone, Debug)]
pub enum WebhookAction {
    /// Nothing: an event not handled, or one missing what it needs.
    Ignore,
    /// Read the session back from Stripe and credit it as the member's deposit.
    CreditDeposit { session_id: String, member: u128, member_text: String },
    /// Record a connected account's clearance; a blank email keeps the old one.
    UpdateAccount { account_id: String, email: String, payouts_enabled: bool, details_submitted: bool },
    /// A transfer came back: the payout it carried is owed again.
    ReverseTransfer { transfer_id: String },
}

pub open spec fn text(o: Option<String>) -> Option<Seq<char>> {
    match o {
        Some(s) => Some(s@),
        None => None,
    }
}

/// What an event of a kind, with this object, asks for.
pub open spec fn action_for(kind: Seq<char>, obj: EventObject, r: WebhookAction) -> bool {
    if kind == "checkout.session.completed"@ {
        match (text(obj.id), text(obj.client_reference_id)) {
            (Some(session), Some(user)) => if text(obj.purpose) == Some("deposit"@) {
                match uuid_text(user) {
                    Some(member) => r matches WebhookAction::CreditDeposit { session_id, member: m, member_text }
                        && session_id@ == session && m == member && member_text@ == user,
                    None => r is Ignore,
                }
            } else {
                r is Ignore
            },
            _ => r is Ignore,
        }
    } else if kind == "account.updated"@ {
        match text(obj.id) {
            Some(account) => r matches WebhookAction::UpdateAccount { account_id, email, payouts_enabled, details_submitted }
                && account_id@ == account
                && email@ == (match text(obj.email) {
                    Some(e) => e,
                    None => Seq::<char>::empty(),
                })
                && payouts_enabled == (match obj.payouts_enabled {
                    Some(b) => b,
                    None => false,
                })
                && details_submitted == (match obj.details_submitted {
                    Some(b) => b,
                    None => false,
                }),
            None => r is Ignore,
        }
    } else if kind == "transfer.reversed"@ {
        match text(obj.id) {
            Some(t) => r matches WebhookAction::ReverseTransfer { transfer_id } && transfer_id@ == t,
            None => r is Ignore,
        }
    } else {
        r is Ignore
    }
}

/// Decides what a signed event asks for.
pub fn webhook_action(kind: &str, obj: &EventObject) -> (r: WebhookAction)
    ensures
        action_for(kind@, *obj, r),
{
    if str_eq(kind, "checkout.session.completed") {
        let session = match &obj.id {
            Some(s) => s,
            None => return WebhookAction::Ignore,
        };
        let user = match &obj.client_reference_id {
            Some(u) => u,
            None => return WebhookAction::Ignore,
        };
        let deposit = match &obj.purpose {
            Some(p) => str_eq(p.as_str(), "deposit"),
            None => false,
        };
        if !deposit {
            return WebhookAction::Ignore;
        }
        match parse_member_id(user.as_str()) {
            Some(member) => WebhookAction::CreditDeposit {
                session_id: session.clone(),
                member,
                member_text: user.clone(),
            },
            None => WebhookAction::Ignore,
        }
    } else if str_eq(kind, "account.updated") {
        match &obj.id {
            Some(a) => WebhookAction::UpdateAccount {
                account_id: a.clone(),
                email: match &obj.email {
                    Some(e) => e.clone(),
                    None => String::new(),
                },
                payouts_enabled: match obj.payouts_enabled {
                    Some(b) => b,
                    None => false,
                },
                details_submitted: match obj.details_submitted {
                    Some(b) => b,
                    None => false,
                },
            },
            None => WebhookAction::Ignore,
        }
    } else if str_eq(kind, "transfer.reversed") {
        match &obj.id {
            Some(t) => WebhookAction::ReverseTransfer { transfer_id: t.clone() },
            None => WebhookAction::Ignore,
        }
    } else {
        WebhookAction::Ignore
    }
}

} // verus!
