//! The manually filed XLM/PHP rate: the fallback screens use when every
//! public feed is unreachable. Loans are never priced from it.

use vstd::prelude::*;

use crate::Refusal;
use crate::text::{trim, trimmed};

verus! {

/// The largest rate an administrator may file: a million pesos per XLM.
pub const MAX_FILED_RATE: i64 = 100_000_000;

/// A rate an administrator files, in whole centavos per XLM.
#[derive(Clone, Copy, Debug, PartialEq, Eq)]
pub struct FxRateInput {
    pub centavos_per_xlm: i64,
}

/// The answer to a filed rate.
#[derive(Clone, Copy, Debug, PartialEq, Eq)]
pub struct FxRateResponse {
    pub centavos_per_xlm: i64,
    pub message: &'static str,
}

/// Checks a filed rate and says what filing it means: a rate that is not
/// positive, or past the cap, is refused.
pub fn file_fx_rate(p: FxRateInput) -> (r: Result<FxRateResponse, Refusal>)
    ensures
        r == (if p.centavos_per_xlm <= 0 || p.centavos_per_xlm > MAX_FILED_RATE {
            Err(Refusal { status: 422, message: "Invalid rate" })
        } else {
            Ok(FxRateResponse {
                centavos_per_xlm: p.centavos_per_xlm,
                message: "Fallback XLM/PHP rate filed — live loans are still priced from the public feeds",
            })
        }),
{
    if p.centavos_per_xlm <= 0 || p.centavos_per_xlm > MAX_FILED_RATE {
        return Err(Refusal { status: 422, message: "Invalid rate" });
    }
    Ok(FxRateResponse {
        centavos_per_xlm: p.centavos_per_xlm,
        message: "Fallback XLM/PHP rate filed — live loans are still priced from the public feeds",
    })
}

/// A search term longer than any username is not a search.
pub const MAX_SEARCH: usize = 64;

/// The text a search narrows by: trimmed, and cut to its first sixty-four
/// characters.
pub open spec fn search_text(s: Seq<char>) -> Seq<char> {
    if trimmed(s).len() <= MAX_SEARCH {
        trimmed(s)
    } else {
        trimmed(s).take(MAX_SEARCH as int)
    }
}

/// Bounds a search term. It is not validated: the database treats it as
/// plain text.
pub fn search_term(s: &str) -> (r: String)
    ensures
        r@ == search_text(s@),
{
    let t = trim(s);
    let n = t.unicode_len();
    if n <= MAX_SEARCH {
        t.to_string()
    } else {
        t.substring_char(0, MAX_SEARCH).to_string()
    }
}

/// A member paid a slice of a repayment's interest, and what the slice was
/// proportional to.
#[derive(Clone, Debug)]
pub struct InterestRecipient {
    pub username: String,
    /// `depositor` or `guarantor`.
    pub role: String,
    /// The member's deposit balance, or their pledge.
    pub weight: i64,
    /// The tier percent a guarantor was paid at.
    pub tier_share: Option<i16>,
    pub amount: i64,
}

/// One recorded slice, as read, with the repayment it belongs to.
#[derive(Clone, Debug)]
pub struct RecipientRow {
    pub event_id: i64,
    pub recipient: InterestRecipient,
}

/// The rows of one repayment, in the order read.
pub open spec fn rows_of(rows: Seq<RecipientRow>, event_id: i64) -> Seq<RecipientRow>
    decreases rows.len(),
{
    if rows.len() == 0 {
        Seq::empty()
    } else if rows.last().event_id == event_id {
        rows_of(rows.drop_last(), event_id).push(rows.last())
    } else {
        rows_of(rows.drop_last(), event_id)
    }
}

/// Whether a recipient is a copy of a recorded slice.
pub open spec fn same_recipient(a: InterestRecipient, b: InterestRecipient) -> bool {
    &&& a.username@ == b.username@
    &&& a.role@ == b.role@
    &&& a.weight == b.weight
    &&& a.tier_share == b.tier_share
    &&& a.amount == b.amount
}

/// The members paid out of one repayment, in the order they were read.
pub fn recipients_for(event_id: i64, rows: &Vec<RecipientRow>) -> (r: Vec<InterestRecipient>)
    ensures
        r@.len() == rows_of(rows@, event_id).len(),
        forall|k: int| 0 <= k < r@.len() ==> same_recipient(#[trigger] r@[k], rows_of(rows@, event_id)[k].recipient),
{
    let mut out: Vec<InterestRecipient> = Vec::new();
    let mut i: usize = 0;
    while i < rows.len()
        invariant
            i <= rows.len(),
            out@.len() == rows_of(rows@.subrange(0, i as int), event_id).len(),
            forall|k: int| 0 <= k < out@.len() ==> same_recipient(#[trigger] out@[k], rows_of(rows@.subrange(0, i as int), event_id)[k].recipient),
        decreases rows.len() - i,
    {
        assert(rows@.subrange(0, i as int + 1).drop_last() =~= rows@.subrange(0, i as int));
        let row = &rows[i];
        if row.event_id == event_id {
            out.push(InterestRecipient {
                username: row.recipient.username.clone(),
                role: row.recipient.role.clone(),
                weight: row.recipient.weight,
                tier_share: row.recipient.tier_share,
                amount: row.recipient.amount,
            });
        }
        i = i + 1;
    }
    assert(rows@.subrange(0, rows.len() as int) =~= rows@);
    out
}

} // verus!
