//! The public record of every loan: filters that can only ever pick a fixed
//! fragment of the query, guarantors shown by their asking position rather
//! than by who they are, and the totals on the front page.

use vstd::prelude::*;

use crate::domain::interest::InterestParts;
use crate::text::str_eq;

verus! {

/// A request for one page of the public loan list, optionally narrowed to a
/// status and a product.
#[derive(Clone, Debug)]
pub struct PublicLoansQuery {
    pub page: i64,
    pub status: String,
    pub product: String,
}

/// The SQL condition a status filter stands for: one of a fixed set of
/// fragments, and `TRUE` for anything else, so nothing the caller sends ever
/// reaches the query text.
pub open spec fn status_fragment(status: Seq<char>) -> &'static str {
    if status == "pending"@ {
        "l.status = 'pending'"
    } else if status == "active"@ {
        "l.status = 'active'"
    } else if status == "closed"@ {
        "l.status = 'closed'"
    } else if status == "declined"@ {
        "l.status = 'declined'"
    } else if status == "cancelled"@ {
        "l.status = 'cancelled'"
    } else if status == "defaulted"@ {
        "l.status IN ('defaulted', 'reconciling', 'reconciled')"
    } else {
        "TRUE"
    }
}

pub fn status_clause(status: &str) -> (r: &'static str)
    ensures
        r == status_fragment(status@),
{
    if str_eq(status, "pending") {
        "l.status = 'pending'"
    } else if str_eq(status, "active") {
        "l.status = 'active'"
    } else if str_eq(status, "closed") {
        "l.status = 'closed'"
    } else if str_eq(status, "declined") {
        "l.status = 'declined'"
    } else if str_eq(status, "cancelled") {
        "l.status = 'cancelled'"
    } else if str_eq(status, "defaulted") {
        "l.status IN ('defaulted', 'reconciling', 'reconciled')"
    } else {
        "TRUE"
    }
}

/// The SQL condition a product filter stands for, `TRUE` for anything else.
pub open spec fn product_fragment(product: Seq<char>) -> &'static str {
    if product == "deposit_backed"@ {
        "l.product = 'deposit_backed'"
    } else if product == "xlm_collateral"@ {
        "l.product = 'xlm_collateral'"
    } else if product == "guarantor"@ {
        "l.product = 'guarantor'"
    } else {
        "TRUE"
    }
}

pub fn product_clause(product: &str) -> (r: &'static str)
    ensures
        r == product_fragment(product@),
{
    if str_eq(product, "deposit_backed") {
        "l.product = 'deposit_backed'"
    } else if str_eq(product, "xlm_collateral") {
        "l.product = 'xlm_collateral'"
    } else if str_eq(product, "guarantor") {
        "l.product = 'guarantor'"
    } else {
        "TRUE"
    }
}

/// A guarantor's public number: their place in the order they were asked,
/// counting from 1. A member listed twice keeps their later place.
pub open spec fn asking_position(ordered: Seq<u128>, id: u128) -> Option<i64>
    decreases ordered.len(),
{
    if ordered.len() == 0 {
        None
    } else if ordered.last() == id {
        Some(ordered.len() as i64)
    } else {
        asking_position(ordered.drop_last(), id)
    }
}

pub fn position_of(ordered: &[u128], id: u128) -> (r: Option<i64>)
    requires
        ordered@.len() <= i64::MAX,
    ensures
        r == asking_position(ordered@, id),
{
    let mut i: usize = ordered.len();
    assert(ordered@.take(i as int) =~= ordered@);
    while i > 0
        invariant
            i <= ordered@.len(),
            ordered@.len() <= i64::MAX,
            asking_position(ordered@.take(i as int), id) == asking_position(ordered@, id),
        decreases i,
    {
        assert(ordered@.take(i as int).drop_last() =~= ordered@.take(i - 1));
        if ordered[i - 1] == id {
            return Some(i as i64);
        }
        i = i - 1;
    }
    None
}

/// How many loans stand at one status.
#[derive(Clone, Debug)]
pub struct StatusCount {
    pub status: String,
    pub count: i64,
}

/// The front-page totals.
#[derive(Clone, Debug)]
pub struct PublicSummary {
    pub loans: i64,
    pub by_status: Vec<StatusCount>,
    pub disbursed: i64,
    pub repaid: i64,
    pub interest: i64,
}

pub open spec fn count_total(s: Seq<StatusCount>) -> int
    decreases s.len(),
{
    if s.len() == 0 {
        0
    } else {
        count_total(s.drop_last()) + s.last().count
    }
}

/// The totals: the number of loans is the sum over their statuses.
pub fn summarize(by_status: Vec<StatusCount>, disbursed: i64, repaid: i64, interest: i64) -> (r: PublicSummary)
    requires
        forall|k: int|
            0 <= k <= by_status@.len() ==> i64::MIN <= #[trigger] count_total(by_status@.take(k))
                <= i64::MAX,
    ensures
        r.loans == count_total(by_status@),
        r.by_status@ == by_status@,
        r.disbursed == disbursed,
        r.repaid == repaid,
        r.interest == interest,
{
    let n = by_status.len();
    let mut loans: i64 = 0;
    let mut i: usize = 0;
    assert(by_status@.take(0) =~= Seq::<StatusCount>::empty());
    while i < n
        invariant
            i <= n,
            n == by_status@.len(),
            loans == count_total(by_status@.take(i as int)),
            forall|k: int|
                0 <= k <= by_status@.len() ==> i64::MIN <= #[trigger] count_total(by_status@.take(k))
                    <= i64::MAX,
        decreases n - i,
    {
        assert(by_status@.take(i + 1).drop_last() =~= by_status@.take(i as int));
        assert(i64::MIN <= count_total(by_status@.take(i + 1)) <= i64::MAX);
        loans = loans + by_status[i].count;
        i = i + 1;
    }
    assert(by_status@.take(n as int) =~= by_status@);
    PublicSummary { loans, by_status, disbursed, repaid, interest }
}

/// One installment of the public schedule.
#[derive(Clone, Debug)]
pub struct PublicInstallment {
    pub installment: i16,
    pub due_at: i64,
    pub principal_due: i64,
    pub interest_due: i64,
    pub principal_paid: i64,
    pub interest_paid: i64,
    pub status: String,
}

/// One movement the vault made for a loan's collateral.
#[derive(Clone, Debug)]
pub struct PublicVaultAction {
    pub action: String,
    pub status: String,
    pub tx_hash: Option<String>,
    pub at: i64,
    pub moved_stroops: Option<i64>,
    pub value_centavos: Option<i64>,
}

/// A loan's XLM position, as the public sees it.
#[derive(Clone, Debug)]
pub struct PublicCollateral {
    pub required_stroops: i64,
    pub locked_stroops: i64,
    pub status: String,
    pub lock_tx_hash: Option<String>,
    pub locked_at: Option<i64>,
    pub collateral_ratio_bps: i32,
    pub covers_centavos: Option<i64>,
    pub actions: Vec<PublicVaultAction>,
}

/// A guarantor, known only by asking position.
#[derive(Clone, Debug)]
pub struct PublicGuarantor {
    pub position: i64,
    pub pledge_amount: i64,
    pub status: String,
}

/// What is locked behind a loan right now, by kind.
#[derive(Clone, Copy, Debug, PartialEq, Eq)]
pub struct PublicLockedNow {
    pub collateral: i64,
    pub lent: i64,
    pub pledged: i64,
}

/// One guarantor's slice of a payment's interest.
#[derive(Clone, Copy, Debug, PartialEq, Eq)]
pub struct PublicGuarantorSlice {
    pub position: Option<i64>,
    pub tier_share: Option<i16>,
    pub amount: i64,
}

/// Where one payment's interest went.
#[derive(Clone, Debug)]
pub struct PublicSplit {
    pub interest: i64,
    pub parts: InterestParts,
    pub policy_version: Option<i64>,
    pub pool_balance: Option<i64>,
    pub pledged_total: Option<i64>,
    pub depositors_paid: i64,
    pub guarantors: Vec<PublicGuarantorSlice>,
}

/// One payment on a loan.
#[derive(Clone, Debug)]
pub struct PublicPayment {
    pub paid_at: i64,
    pub amount: i64,
    pub principal_paid: i64,
    pub interest_paid: i64,
    pub fee_paid: i64,
    pub split: Option<PublicSplit>,
}

/// One step of a default's recovery. A guarantor's deposit is shown by the
/// guarantor's asking position.
#[derive(Clone, Debug)]
pub struct PublicRecovery {
    pub step: i16,
    pub source: String,
    pub guarantor: Option<i64>,
    pub amount: i64,
    pub refunded: i64,
    pub stroops: Option<i64>,
    pub at: i64,
}

/// One member's interest from one payment, as booked.
#[derive(Clone, Debug)]
pub struct InterestSlice {
    pub event_id: i64,
    pub member: u128,
    pub role: String,
    pub tier_share: Option<i16>,
    pub amount: i64,
}

/// The guarantor slices of one payment's interest, in booking order.
pub open spec fn guarantor_slices(slices: Seq<InterestSlice>, event_id: i64, ordered: Seq<u128>) -> Seq<
    PublicGuarantorSlice,
>
    decreases slices.len(),
{
    if slices.len() == 0 {
        Seq::empty()
    } else {
        let s = slices.last();
        let front = guarantor_slices(slices.drop_last(), event_id, ordered);
        if s.event_id == event_id && s.role@ == "guarantor"@ {
            front.push(
                PublicGuarantorSlice {
                    position: asking_position(ordered, s.member),
                    tier_share: s.tier_share,
                    amount: s.amount,
                },
            )
        } else {
            front
        }
    }
}

/// How many depositors one payment's interest reached.
pub open spec fn depositor_count(slices: Seq<InterestSlice>, event_id: i64) -> nat
    decreases slices.len(),
{
    if slices.len() == 0 {
        0
    } else {
        depositor_count(slices.drop_last(), event_id) + (if slices.last().event_id == event_id
            && slices.last().role@ == "depositor"@ {
            1nat
        } else {
            0nat
        })
    }
}

/// The booked split of one payment's interest, with the members shown only
/// as counts and asking positions.
pub fn split_view(
    event_id: i64,
    interest: i64,
    parts: InterestParts,
    policy_version: Option<i64>,
    pool_balance: Option<i64>,
    pledged_total: Option<i64>,
    slices: &[InterestSlice],
    ordered: &[u128],
) -> (r: PublicSplit)
    requires
        ordered@.len() <= i64::MAX,
    ensures
        r.interest == interest,
        r.parts == parts,
        r.policy_version == policy_version,
        r.pool_balance == pool_balance,
        r.pledged_total == pledged_total,
        r.depositors_paid == depositor_count(slices@, event_id) as i64,
        r.guarantors@ == guarantor_slices(slices@, event_id, ordered@),
{
    let n = slices.len();
    let mut depositors: usize = 0;
    let mut guarantors: Vec<PublicGuarantorSlice> = Vec::new();
    let mut i: usize = 0;
    assert(slices@.take(0) =~= Seq::<InterestSlice>::empty());
    while i < n
        invariant
            i <= n,
            n == slices@.len(),
            ordered@.len() <= i64::MAX,
            depositors == depositor_count(slices@.take(i as int), event_id),
            depositors <= i,
            guarantors@ == guarantor_slices(slices@.take(i as int), event_id, ordered@),
        decreases n - i,
    {
        let s = &slices[i];
        assert(slices@.take(i + 1).drop_last() =~= slices@.take(i as int));
        assert(slices@.take(i + 1).last() == slices@[i as int]);
        if s.event_id == event_id && str_eq(s.role.as_str(), "depositor") {
            depositors = depositors + 1;
        }
        if s.event_id == event_id && str_eq(s.role.as_str(), "guarantor") {
            let position = position_of(ordered, s.member);
            guarantors.push(PublicGuarantorSlice { position, tier_share: s.tier_share, amount: s.amount });
        }
        i = i + 1;
    }
    assert(slices@.take(n as int) =~= slices@);
    PublicSplit {
        interest,
        parts,
        policy_version,
        pool_balance,
        pledged_total,
        depositors_paid: depositors as i64,
        guarantors,
    }
}

/// One recovery step for the public record: the member behind a guarantor's
/// deposit becomes their asking position, and no other source names anyone.
pub fn recovery_view(
    step: i16,
    source: String,
    member: Option<u128>,
    amount: i64,
    refunded: i64,
    stroops: Option<i64>,
    at: i64,
    ordered: &[u128],
) -> (r: PublicRecovery)
    requires
        ordered@.len() <= i64::MAX,
    ensures
        r.guarantor == (if source@ == "guarantor_deposit"@ {
            match member {
                Some(m) => asking_position(ordered@, m),
                None => None,
            }
        } else {
            None
        }),
        r.step == step,
        r.source@ == source@,
        r.amount == amount,
        r.refunded == refunded,
        r.stroops == stroops,
        r.at == at,
{
    let guarantor = if str_eq(source.as_str(), "guarantor_deposit") {
        match member {
            Some(m) => position_of(ordered, m),
            None => None,
        }
    } else {
        None
    };
    PublicRecovery { step, source, guarantor, amount, refunded, stroops, at }
}

} // verus!
