//! The custody record of an XLM position: the price it was struck at with
//! the feeds behind it, and every on-chain movement in order. Nothing here
//! computes money; the only derived numbers are display value and health.

use vstd::prelude::*;

use super::loans::{health_fits, health_of, health_pct};
use crate::domain::collateral_value_centavos;
use crate::domain::loans::collateral_value;
use crate::text::str_eq;

verus! {

/// One movement of collateral in or out of the vault.
#[derive(Clone, Debug)]
pub struct MovementView {
    /// The contract entry point: `lock`, `mark_repaid`, `release`,
    /// `mark_defaulted` or `seize`.
    pub kind: String,
    /// `confirmed` once a transaction hash is on record, `queued` while it
    /// still waits for the admin key.
    pub status: &'static str,
    pub tx_hash: Option<String>,
    pub at: Option<i64>,
    pub quote_php_per_xlm_centavos: Option<i64>,
    pub quote_usd_per_xlm_e8: Option<i64>,
    pub quote_php_per_usd_centavos: Option<i64>,
}

/// One public feed's contribution to the pinned rate.
#[derive(Clone, Debug)]
pub struct PriceSourceView {
    pub name: String,
    pub centavos_per_xlm: i64,
    pub leg: String,
    pub deviation_bps: i64,
    /// False when the feed sat outside the band and was dropped.
    pub used: bool,
}

/// The price a position was struck at, with its evidence.
#[derive(Clone, Debug)]
pub struct PriceEvidence {
    pub centavos_per_xlm: Option<i64>,
    pub usd_per_xlm_e8: Option<i64>,
    pub usd_php_centavos: Option<i64>,
    pub priced_at: Option<i64>,
    /// How many of the feeds read counted toward the median.
    pub sources_used: usize,
    pub sources: Vec<PriceSourceView>,
}

/// One row of the vault outbox for a position, as read.
#[derive(Clone, Debug)]
pub struct ActionRow {
    pub action: String,
    pub status: String,
    pub tx_hash: Option<String>,
    pub created_at: i64,
    pub done_at: Option<i64>,
    pub quote_php_per_xlm_centavos: Option<i64>,
    pub quote_usd_per_xlm_e8: Option<i64>,
    pub quote_php_per_usd_centavos: Option<i64>,
}

/// How many of a run of feeds were used.
pub open spec fn used_count(sources: Seq<PriceSourceView>) -> nat
    decreases sources.len(),
{
    if sources.len() == 0 {
        0
    } else {
        used_count(sources.drop_last()) + (if sources.last().used { 1nat } else { 0nat })
    }
}

/// Counts the feeds that counted toward the median.
pub fn sources_used(sources: &Vec<PriceSourceView>) -> (r: usize)
    ensures
        r == used_count(sources@),
{
    let mut n: usize = 0;
    let mut i: usize = 0;
    while i < sources.len()
        invariant
            i <= sources.len(),
            n == used_count(sources@.subrange(0, i as int)),
            n <= i,
        decreases sources.len() - i,
    {
        assert(sources@.subrange(0, i as int + 1).drop_last() =~= sources@.subrange(0, i as int));
        if sources[i].used {
            n = n + 1;
        }
        i = i + 1;
    }
    assert(sources@.subrange(0, sources.len() as int) =~= sources@);
    n
}

/// When a movement happened: a confirmed one when it was done, else when it
/// was queued; a queued one when it was queued.
pub open spec fn movement_at(done: bool, created_at: i64, done_at: Option<i64>) -> Option<i64> {
    if done {
        match done_at {
            Some(d) => Some(d),
            None => Some(created_at),
        }
    } else {
        Some(created_at)
    }
}

/// How one outbox row reads in the record.
pub open spec fn movement_of(a: ActionRow, m: MovementView) -> bool {
    let done = a.status@ == "done"@;
    &&& m.kind@ == a.action@
    &&& m.status == (if done { "confirmed" } else { "queued" })
    &&& (match (m.tx_hash, a.tx_hash) {
        (Some(x), Some(y)) => x@ == y@,
        (None, None) => true,
        _ => false,
    })
    &&& m.at == movement_at(done, a.created_at, a.done_at)
    &&& m.quote_php_per_xlm_centavos == a.quote_php_per_xlm_centavos
    &&& m.quote_usd_per_xlm_e8 == a.quote_usd_per_xlm_e8
    &&& m.quote_php_per_usd_centavos == a.quote_php_per_usd_centavos
}

fn clone_opt(s: &Option<String>) -> (r: Option<String>)
    ensures
        match (r, *s) {
            (Some(x), Some(y)) => x@ == y@,
            (None, None) => true,
            _ => false,
        },
{
    match s {
        Some(x) => Some(x.clone()),
        None => None,
    }
}

/// The movements of a position in order: the borrower's own lock first,
/// when its hash is on record, then every outbox row in submission order.
pub fn movements(lock_tx_hash: &Option<String>, locked_at: Option<i64>, actions: &Vec<ActionRow>) -> (r: Vec<MovementView>)
    ensures
        ({
            let off: int = if lock_tx_hash.is_some() { 1 } else { 0 };
            &&& r@.len() == actions@.len() + off
            &&& lock_tx_hash.is_some() ==> {
                &&& r@[0].kind@ == "lock"@
                &&& r@[0].status == "confirmed"
                &&& r@[0].at == locked_at
                &&& r@[0].tx_hash is Some
                &&& r@[0].tx_hash->0@ == lock_tx_hash->0@
                &&& r@[0].quote_php_per_xlm_centavos is None
                &&& r@[0].quote_usd_per_xlm_e8 is None
                &&& r@[0].quote_php_per_usd_centavos is None
            }
            &&& forall|i: int| 0 <= i < actions@.len() ==> movement_of(#[trigger] actions@[i], r@[i + off])
        }),
{
    let mut out: Vec<MovementView> = Vec::new();
    let off: usize = if lock_tx_hash.is_some() { 1 } else { 0 };
    if let Some(h) = lock_tx_hash {
        out.push(MovementView {
            kind: "lock".to_string(),
            status: "confirmed",
            tx_hash: Some(h.clone()),
            at: locked_at,
            quote_php_per_xlm_centavos: None,
            quote_usd_per_xlm_e8: None,
            quote_php_per_usd_centavos: None,
        });
    }
    let mut i: usize = 0;
    while i < actions.len()
        invariant
            i <= actions.len(),
            off == (if lock_tx_hash.is_some() { 1usize } else { 0usize }),
            out@.len() == i + off,
            lock_tx_hash.is_some() ==> {
                &&& out@[0].kind@ == "lock"@
                &&& out@[0].status == "confirmed"
                &&& out@[0].at == locked_at
                &&& out@[0].tx_hash is Some
                &&& out@[0].tx_hash->0@ == lock_tx_hash->0@
                &&& out@[0].quote_php_per_xlm_centavos is None
                &&& out@[0].quote_usd_per_xlm_e8 is None
                &&& out@[0].quote_php_per_usd_centavos is None
            },
            forall|k: int| 0 <= k < i ==> movement_of(#[trigger] actions@[k], out@[k + off]),
        decreases actions.len() - i,
    {
        let a = &actions[i];
        let done = str_eq(a.status.as_str(), "done");
        let at = if done {
            match a.done_at {
                Some(d) => Some(d),
                None => Some(a.created_at),
            }
        } else {
            Some(a.created_at)
        };
        out.push(MovementView {
            kind: a.action.clone(),
            status: if done { "confirmed" } else { "queued" },
            tx_hash: clone_opt(&a.tx_hash),
            at,
            quote_php_per_xlm_centavos: a.quote_php_per_xlm_centavos,
            quote_usd_per_xlm_e8: a.quote_usd_per_xlm_e8,
            quote_php_per_usd_centavos: a.quote_php_per_usd_centavos,
        });
        i = i + 1;
    }
    out
}

/// What the locked coins are worth now, at the live rate, and their health
/// against what is still owed: none of either while nothing is locked.
pub fn custody_health(locked_stroops: i64, fx: i64, outstanding: i64) -> (r: (Option<i64>, Option<i64>))
    requires
        health_fits(locked_stroops, fx),
    ensures
        r.0 == (if locked_stroops > 0 { Some(collateral_value(locked_stroops, fx)) } else { None }),
        r.1 == health_of(locked_stroops, fx, outstanding),
{
    if locked_stroops > 0 {
        (Some(collateral_value_centavos(locked_stroops, fx)), health_pct(locked_stroops, fx, outstanding))
    } else {
        (None, None)
    }
}

} // verus!
