//! Where a member's money is sent, and what the member is told about a
//! payout afterwards.

use vstd::prelude::*;
use vstd::string::StringExecFns;

use crate::Refusal;
use crate::text::str_eq;

verus! {

/// A payout account on one rail.
#[derive(Clone, Debug)]
pub struct Destination {
    pub provider: &'static str,
    pub account: String,
}

pub open spec fn dest_view(d: Destination) -> (&'static str, Seq<char>) {
    (d.provider, d.account@)
}

/// The account a payout goes to: the deployment's preferred rail first, the
/// other if the member only linked that one. `paypal` and `stripe` are the
/// member's active accounts on rails that are configured.
pub open spec fn destination_for(
    prefer_stripe: bool,
    paypal: Option<Seq<char>>,
    stripe: Option<Seq<char>>,
    any_rail_configured: bool,
) -> Result<(&'static str, Seq<char>), Refusal> {
    let first = if prefer_stripe {
        match stripe {
            Some(a) => Some(("stripe", a)),
            None => None,
        }
    } else {
        match paypal {
            Some(a) => Some(("paypal", a)),
            None => None,
        }
    };
    let second = if prefer_stripe {
        match paypal {
            Some(a) => Some(("paypal", a)),
            None => None,
        }
    } else {
        match stripe {
            Some(a) => Some(("stripe", a)),
            None => None,
        }
    };
    match (first, second) {
        (Some(d), _) => Ok(d),
        (None, Some(d)) => Ok(d),
        (None, None) => if !any_rail_configured {
            Err(Refusal { status: 503, message: "Payouts aren't configured on this deployment yet" })
        } else {
            Err(
                Refusal {
                    status: 422,
                    message: "Connect a payout account first — Settings → PayPal or Stripe",
                },
            )
        },
    }
}

pub open spec fn text_of(s: Option<String>) -> Option<Seq<char>> {
    match s {
        Some(t) => Some(t@),
        None => None,
    }
}

pub fn choose_destination(
    prefer_stripe: bool,
    paypal: Option<String>,
    stripe: Option<String>,
    any_rail_configured: bool,
) -> (r: Result<Destination, Refusal>)
    ensures
        match destination_for(prefer_stripe, text_of(paypal), text_of(stripe), any_rail_configured) {
            Ok(d) => r is Ok && dest_view(r->Ok_0) == d,
            Err(e) => r == Err::<Destination, Refusal>(e),
        },
{
    let (first, second) = if prefer_stripe {
        (stripe, paypal)
    } else {
        (paypal, stripe)
    };
    let (first_rail, second_rail) = if prefer_stripe {
        ("stripe", "paypal")
    } else {
        ("paypal", "stripe")
    };
    if let Some(a) = first {
        return Ok(Destination { provider: first_rail, account: a });
    }
    if let Some(a) = second {
        return Ok(Destination { provider: second_rail, account: a });
    }
    if !any_rail_configured {
        return Err(Refusal { status: 503, message: "Payouts aren't configured on this deployment yet" });
    }
    Err(Refusal { status: 422, message: "Connect a payout account first — Settings → PayPal or Stripe" })
}

/// The line shown under a payout: a reminder for one not yet accepted, a note
/// that one came back, the provider's reason for one that failed.
pub open spec fn payout_note(status: Seq<char>, last_error: Option<Seq<char>>) -> Option<Seq<char>> {
    if status == "unclaimed"@ {
        Some(
            "Sent, but not accepted yet — check the email PayPal sent you. It returns to us after 30 days."@,
        )
    } else if status == "returned"@ {
        Some("Came back to us — you can request it again."@)
    } else if status == "failed"@ {
        last_error
    } else {
        None
    }
}

pub fn note_for(status: &str, last_error: Option<String>) -> (r: Option<String>)
    ensures
        text_of(r) == payout_note(status@, text_of(last_error)),
{
    if str_eq(status, "unclaimed") {
        Some(
            String::from_str(
                "Sent, but not accepted yet — check the email PayPal sent you. It returns to us after 30 days.",
            ),
        )
    } else if str_eq(status, "returned") {
        Some(String::from_str("Came back to us — you can request it again."))
    } else if str_eq(status, "failed") {
        last_error
    } else {
        None
    }
}

/// Whether the deployment prefers Stripe: only when its setting says so;
/// PayPal, the rail every member is already on, otherwise.
pub fn prefers_stripe(setting: Option<&str>) -> (r: bool)
    ensures
        r == (match setting {
            Some(v) => v@ == "stripe"@,
            None => false,
        }),
{
    match setting {
        Some(v) => str_eq(v, "stripe"),
        None => false,
    }
}

/// Only a disbursed loan of the member's own has proceeds to send.
pub fn check_proceeds_loan(loan: Option<(u128, &str)>, user_id: u128) -> (r: Result<(), Refusal>)
    ensures
        r == (match loan {
            None => Err(Refusal { status: 404, message: "No such loan" }),
            Some((borrower, status)) => if borrower != user_id {
                Err(Refusal { status: 404, message: "No such loan" })
            } else if status@ != "active"@ {
                Err(Refusal {
                    status: 409,
                    message: "This loan has no proceeds waiting — only a disbursed loan can be withdrawn",
                })
            } else {
                Ok(())
            },
        }),
{
    match loan {
        None => Err(Refusal { status: 404, message: "No such loan" }),
        Some((borrower, status)) => {
            if borrower != user_id {
                return Err(Refusal { status: 404, message: "No such loan" });
            }
            if !str_eq(status, "active") {
                return Err(Refusal {
                    status: 409,
                    message: "This loan has no proceeds waiting — only a disbursed loan can be withdrawn",
                });
            }
            Ok(())
        },
    }
}

/// What a provider answered when a payout was handed to it.
#[derive(Clone, Debug)]
pub enum Submitted {
    /// Accepted, with the provider's reference.
    Accepted(String),
    /// The provider has seen this payout before; a transfer may exist.
    AlreadySubmitted,
    /// Refused for good, with the reason.
    Refused(String),
    /// Not reachable; worth trying again.
    Retryable(String),
}

/// How a submission is recorded, and what the member is told.
#[derive(Clone, Debug)]
pub struct SubmissionRecord {
    pub status: &'static str,
    pub reference: Option<String>,
    /// Whether the send time is stamped now.
    pub sent_now: bool,
    pub error: Option<String>,
    pub message: &'static str,
}

/// The most of a provider's error that is kept on a payout.
pub const MAX_ERROR_CHARS: usize = 200;

/// A provider's error, cut to what is kept.
pub open spec fn kept_error(e: Seq<char>) -> Seq<char> {
    if e.len() <= MAX_ERROR_CHARS {
        e
    } else {
        e.take(MAX_ERROR_CHARS as int)
    }
}

fn kept(e: &str) -> (r: String)
    ensures
        r@ == kept_error(e@),
{
    if e.unicode_len() <= MAX_ERROR_CHARS {
        String::from_str(e)
    } else {
        String::from_str(e.substring_char(0, MAX_ERROR_CHARS))
    }
}

/// Records a submission: accepted is sent; already submitted is marked
/// sent, the safe reading, and reconciled later; refused fails; unreachable
/// stays pending for the worker. The member is never told which rail.
pub fn submission_record(answer: &Submitted) -> (r: SubmissionRecord)
    ensures
        match *answer {
            Submitted::Accepted(reference) => r.status == "sent" && r.reference is Some
                && r.reference->0@ == reference@ && r.sent_now && r.error is None
                && r.message == "Sent — it usually lands in a few minutes",
            Submitted::AlreadySubmitted => r.status == "sent" && r.reference is None && r.sent_now
                && r.error is Some && r.error->0@ == "Already submitted — reconciling"@
                && r.message == "Already sent — checking on it",
            Submitted::Refused(why) => r.status == "failed" && r.reference is None && !r.sent_now
                && r.error is Some && r.error->0@ == kept_error(why@)
                && r.message == "The transfer was refused — check your connected account",
            Submitted::Retryable(why) => r.status == "pending" && r.reference is None && !r.sent_now
                && r.error is Some && r.error->0@ == kept_error(why@)
                && r.message == "Queued — the payment provider was unreachable, we'll keep trying",
        },
{
    match answer {
        Submitted::Accepted(reference) => SubmissionRecord {
            status: "sent",
            reference: Some(reference.clone()),
            sent_now: true,
            error: None,
            message: "Sent — it usually lands in a few minutes",
        },
        Submitted::AlreadySubmitted => {
            let note = kept("Already submitted — reconciling");
            proof {
                reveal_strlit("Already submitted — reconciling");
            }
            SubmissionRecord {
                status: "sent",
                reference: None,
                sent_now: true,
                error: Some(note),
                message: "Already sent — checking on it",
            }
        },
        Submitted::Refused(why) => SubmissionRecord {
            status: "failed",
            reference: None,
            sent_now: false,
            error: Some(kept(why.as_str())),
            message: "The transfer was refused — check your connected account",
        },
        Submitted::Retryable(why) => SubmissionRecord {
            status: "pending",
            reference: None,
            sent_now: false,
            error: Some(kept(why.as_str())),
            message: "Queued — the payment provider was unreachable, we'll keep trying",
        },
    }
}

} // verus!
