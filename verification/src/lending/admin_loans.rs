//! The operator's view of a loan: its schedule, its collateral, the
//! recovery waterfall as far as it has run, and its whole life as one
//! chronological list of movements.

use vstd::prelude::*;

use crate::text::str_eq;

verus! {

/// One installment as the operator sees it.
#[derive(Clone, Debug)]
pub struct AdminInstallment {
    pub installment: i16,
    pub due_at: i64,
    pub principal_due: i64,
    pub interest_due: i64,
    pub principal_paid: i64,
    pub interest_paid: i64,
    pub status: String,
}

/// The position behind a loan.
#[derive(Clone, Debug)]
pub struct AdminCollateral {
    pub wallet_address: String,
    pub required_stroops: i64,
    pub locked_stroops: i64,
    pub status: String,
}

/// One step of the recovery waterfall.
#[derive(Clone, Debug)]
pub struct AdminRecovery {
    pub step: i16,
    pub source: String,
    pub username: Option<String>,
    pub amount: i64,
    pub stroops: Option<i64>,
    pub created_at: i64,
}

/// One thing that happened to a loan.
#[derive(Clone, Debug)]
pub struct AdminMovement {
    /// `collateral_lock`, `collateral_<action>`, `disbursed`, `payout` or
    /// `payment`.
    pub kind: String,
    pub at: i64,
    pub status: String,
    /// Centavos, where the movement has a peso figure.
    pub amount: Option<i64>,
    pub stroops: Option<i64>,
    /// The Stellar transaction that proves it.
    pub tx_hash: Option<String>,
    /// The payment provider's own reference.
    pub reference: Option<String>,
}

/// A position, as read for a page of loans.
#[derive(Clone, Debug)]
pub struct CollateralRow {
    pub loan_id: u128,
    pub wallet_address: String,
    pub required_stroops: i64,
    pub locked_stroops: i64,
    pub status: String,
    pub lock_tx_hash: Option<String>,
    pub locked_at: Option<i64>,
}

/// A vault movement, queued or done, as read.
#[derive(Clone, Debug)]
pub struct VaultRow {
    pub loan_id: u128,
    pub action: String,
    pub status: String,
    pub tx_hash: Option<String>,
    /// When it was done, else when it was queued.
    pub at: i64,
    pub moved_stroops: Option<i64>,
    pub value_centavos: Option<i64>,
}

/// A transfer of loan proceeds, as read.
#[derive(Clone, Debug)]
pub struct PayoutRow {
    pub loan_id: u128,
    pub amount: i64,
    pub status: String,
    pub transaction_id: Option<String>,
    pub batch_id: Option<String>,
    pub created_at: i64,
}

/// A repayment received, as read.
#[derive(Clone, Copy, Debug)]
pub struct PaymentRow {
    pub loan_id: u128,
    pub amount_received: i64,
    pub paid_at: i64,
}

/// A movement as text and numbers.
pub struct MovementFacts {
    pub kind: Seq<char>,
    pub at: i64,
    pub status: Seq<char>,
    pub amount: Option<i64>,
    pub stroops: Option<i64>,
    pub tx_hash: Option<Seq<char>>,
    pub reference: Option<Seq<char>>,
}

pub open spec fn text_of(o: Option<String>) -> Option<Seq<char>> {
    match o {
        Some(s) => Some(s@),
        None => None,
    }
}

pub open spec fn facts(m: AdminMovement) -> MovementFacts {
    MovementFacts {
        kind: m.kind@,
        at: m.at,
        status: m.status@,
        amount: m.amount,
        stroops: m.stroops,
        tx_hash: text_of(m.tx_hash),
        reference: text_of(m.reference),
    }
}

/// The facts of a run of movements.
pub open spec fn facts_of(s: Seq<AdminMovement>) -> Seq<MovementFacts> {
    s.map_values(|m: AdminMovement| facts(m))
}

/// The first position read for a loan.
pub open spec fn position_of(rows: Seq<CollateralRow>, loan_id: u128) -> Option<CollateralRow>
    decreases rows.len(),
{
    if rows.len() == 0 {
        None
    } else if rows[0].loan_id == loan_id {
        Some(rows[0])
    } else {
        position_of(rows.drop_first(), loan_id)
    }
}

/// The borrower's own lock, when its transaction is on record.
pub open spec fn lock_moves(c: Option<CollateralRow>) -> Seq<MovementFacts> {
    match c {
        Some(row) => match (row.lock_tx_hash, row.locked_at) {
            (Some(h), Some(at)) => seq![MovementFacts {
                kind: "collateral_lock"@,
                at,
                status: "confirmed"@,
                amount: None,
                stroops: Some(row.locked_stroops),
                tx_hash: Some(h@),
                reference: None,
            }],
            _ => Seq::empty(),
        },
        None => Seq::empty(),
    }
}

pub open spec fn disbursal_moves(disbursed_at: Option<i64>, principal: i64) -> Seq<MovementFacts> {
    match disbursed_at {
        Some(at) => seq![MovementFacts {
            kind: "disbursed"@,
            at,
            status: "completed"@,
            amount: Some(principal),
            stroops: None,
            tx_hash: None,
            reference: None,
        }],
        None => Seq::empty(),
    }
}

pub open spec fn payout_move(p: PayoutRow) -> MovementFacts {
    MovementFacts {
        kind: "payout"@,
        at: p.created_at,
        status: p.status@,
        amount: Some(p.amount),
        stroops: None,
        tx_hash: None,
        reference: match p.transaction_id {
            Some(t) => Some(t@),
            None => text_of(p.batch_id),
        },
    }
}

pub open spec fn payout_moves(rows: Seq<PayoutRow>, loan_id: u128) -> Seq<MovementFacts>
    decreases rows.len(),
{
    if rows.len() == 0 {
        Seq::empty()
    } else if rows.last().loan_id == loan_id {
        payout_moves(rows.drop_last(), loan_id).push(payout_move(rows.last()))
    } else {
        payout_moves(rows.drop_last(), loan_id)
    }
}

pub open spec fn payment_move(p: PaymentRow) -> MovementFacts {
    MovementFacts {
        kind: "payment"@,
        at: p.paid_at,
        status: "completed"@,
        amount: Some(p.amount_received),
        stroops: None,
        tx_hash: None,
        reference: None,
    }
}

pub open spec fn payment_moves(rows: Seq<PaymentRow>, loan_id: u128) -> Seq<MovementFacts>
    decreases rows.len(),
{
    if rows.len() == 0 {
        Seq::empty()
    } else if rows.last().loan_id == loan_id {
        payment_moves(rows.drop_last(), loan_id).push(payment_move(rows.last()))
    } else {
        payment_moves(rows.drop_last(), loan_id)
    }
}

/// A vault movement: `done` is the outbox's word, `confirmed` what it means.
pub open spec fn vault_move(v: VaultRow) -> MovementFacts {
    MovementFacts {
        kind: "collateral_"@ + v.action@,
        at: v.at,
        status: if v.status@ == "done"@ { "confirmed"@ } else { v.status@ },
        amount: v.value_centavos,
        stroops: v.moved_stroops,
        tx_hash: text_of(v.tx_hash),
        reference: None,
    }
}

pub open spec fn vault_moves(rows: Seq<VaultRow>, loan_id: u128) -> Seq<MovementFacts>
    decreases rows.len(),
{
    if rows.len() == 0 {
        Seq::empty()
    } else if rows.last().loan_id == loan_id {
        vault_moves(rows.drop_last(), loan_id).push(vault_move(rows.last()))
    } else {
        vault_moves(rows.drop_last(), loan_id)
    }
}

/// A loan's movements in the order they are gathered: the lock, the
/// disbursal, the payouts, the repayments, then the vault movements.
pub open spec fn gathered(
    loan_id: u128,
    disbursed_at: Option<i64>,
    principal: i64,
    collateral: Seq<CollateralRow>,
    vault: Seq<VaultRow>,
    payouts: Seq<PayoutRow>,
    payments: Seq<PaymentRow>,
) -> Seq<MovementFacts> {
    lock_moves(position_of(collateral, loan_id)) + disbursal_moves(disbursed_at, principal)
        + payout_moves(payouts, loan_id) + payment_moves(payments, loan_id) + vault_moves(vault, loan_id)
}

/// The movements of a run that happened at one instant, in run order.
pub open spec fn at_instant(s: Seq<MovementFacts>, t: i64) -> Seq<MovementFacts>
    decreases s.len(),
{
    if s.len() == 0 {
        Seq::empty()
    } else if s.last().at == t {
        at_instant(s.drop_last(), t).push(s.last())
    } else {
        at_instant(s.drop_last(), t)
    }
}

pub open spec fn in_time_order(s: Seq<MovementFacts>) -> bool {
    forall|i: int, j: int| 0 <= i < j < s.len() ==> s[i].at <= s[j].at
}

/// `r` is `s` put in time order, stably: ordered by time, and at every
/// instant the movements of that instant in the order `s` has them.
pub open spec fn stably_ordered(s: Seq<MovementFacts>, r: Seq<MovementFacts>) -> bool {
    &&& in_time_order(r)
    &&& forall|t: i64| #[trigger] at_instant(r, t) == at_instant(s, t)
}

pub proof fn lemma_at_instant_concat(a: Seq<MovementFacts>, b: Seq<MovementFacts>, t: i64)
    ensures
        at_instant(a + b, t) == at_instant(a, t) + at_instant(b, t),
    decreases b.len(),
{
    if b.len() == 0 {
        assert(a + b =~= a);
        assert(at_instant(a, t) + at_instant(b, t) =~= at_instant(a, t));
    } else {
        assert((a + b).drop_last() =~= a + b.drop_last());
        lemma_at_instant_concat(a, b.drop_last(), t);
        if b.last().at == t {
            assert(at_instant(a, t) + at_instant(b.drop_last(), t).push(b.last()) =~= (at_instant(a, t)
                + at_instant(b.drop_last(), t)).push(b.last()));
        }
    }
}

pub proof fn lemma_at_instant_absent(s: Seq<MovementFacts>, t: i64)
    requires
        forall|i: int| 0 <= i < s.len() ==> s[i].at != t,
    ensures
        at_instant(s, t) == Seq::<MovementFacts>::empty(),
    decreases s.len(),
{
    if s.len() > 0 {
        lemma_at_instant_absent(s.drop_last(), t);
    }
}

proof fn lemma_facts_push(s: Seq<AdminMovement>, m: AdminMovement)
    ensures
        facts_of(s.push(m)) == facts_of(s).push(facts(m)),
{
    assert(facts_of(s.push(m)) =~= facts_of(s).push(facts(m)));
}

fn copy_text(o: &Option<String>) -> (r: Option<String>)
    ensures
        text_of(r) == text_of(*o),
{
    match o {
        Some(s) => Some(s.clone()),
        None => None,
    }
}

/// Puts movements in time order, stably.
fn chronological(v: Vec<AdminMovement>) -> (r: Vec<AdminMovement>)
    ensures
        stably_ordered(facts_of(v@), facts_of(r@)),
{
    let ghost src = facts_of(v@);
    let mut rest = v;
    let mut sorted: Vec<AdminMovement> = Vec::new();
    proof {
        assert(src.skip(rest@.len() as int) =~= Seq::<MovementFacts>::empty());
        assert(facts_of(sorted@) =~= Seq::<MovementFacts>::empty());
    }
    while rest.len() > 0
        invariant
            src == facts_of(v@),
            rest@.len() <= v@.len(),
            rest@ == v@.take(rest@.len() as int),
            in_time_order(facts_of(sorted@)),
            forall|t: i64| #[trigger] at_instant(facts_of(sorted@), t) == at_instant(
                src.skip(rest@.len() as int),
                t,
            ),
        decreases rest@.len(),
    {
        let ghost n = rest@.len() as int;
        let x = rest.pop().unwrap();
        let ghost s = facts_of(sorted@);
        let mut p: usize = 0;
        while p < sorted.len() && sorted[p].at < x.at
            invariant
                p <= sorted@.len(),
                s == facts_of(sorted@),
                forall|q: int| 0 <= q < p ==> s[q].at < x.at,
            decreases sorted@.len() - p,
        {
            p = p + 1;
        }
        let ghost fx = facts(x);
        sorted.insert(p, x);
        proof {
            let s2 = facts_of(sorted@);
            let lo = s.subrange(0, p as int);
            let hi = s.subrange(p as int, s.len() as int);
            assert(s2 =~= lo + seq![fx] + hi);
            assert(s =~= lo + hi);
            assert(src.skip(n - 1) =~= seq![fx] + src.skip(n));
            assert(v@[n - 1] == x);
            assert(forall|q: int| 0 <= q < hi.len() ==> hi[q].at >= fx.at) by {
                if p < s.len() {
                    assert(s[p as int].at >= fx.at);
                }
            }
            assert forall|i: int, j: int| 0 <= i < j < s2.len() implies s2[i].at <= s2[j].at by {
                if j < p {
                } else if j == p {
                } else if i < p {
                    assert(s2[j] == hi[j - p - 1]);
                } else if i == p {
                    assert(s2[j] == hi[j - p - 1]);
                } else {
                    assert(s2[i] == s[i - 1]);
                    assert(s2[j] == s[j - 1]);
                }
            }
            assert forall|t: i64| #[trigger] at_instant(s2, t) == at_instant(src.skip(rest@.len() as int), t) by {
                lemma_at_instant_concat(lo + seq![fx], hi, t);
                lemma_at_instant_concat(lo, seq![fx], t);
                lemma_at_instant_concat(lo, hi, t);
                lemma_at_instant_concat(seq![fx], src.skip(n), t);
                assert(seq![fx].drop_last() =~= Seq::<MovementFacts>::empty());
                if t == fx.at {
                    lemma_at_instant_absent(lo, t);
                    assert(at_instant(s, t) == at_instant(src.skip(n), t));
                } else {
                    assert(seq![fx].last() == fx);
                    assert(at_instant(seq![fx].drop_last(), t) =~= Seq::<MovementFacts>::empty());
                    assert(at_instant(seq![fx], t) =~= Seq::<MovementFacts>::empty());
                }
            }
            assert(rest@ =~= v@.take(rest@.len() as int));
        }
    }
    proof {
        assert(src.skip(0) =~= src);
    }
    sorted
}

/// A loan's whole life in one list, oldest first: the lock, the disbursal,
/// the payouts, the repayments and the vault movements, put in time order
/// with ties kept in that gathering order.
pub fn movements_for(
    loan_id: u128,
    disbursed_at: Option<i64>,
    principal: i64,
    collateral: &Vec<CollateralRow>,
    vault: &Vec<VaultRow>,
    payouts: &Vec<PayoutRow>,
    payments: &Vec<PaymentRow>,
) -> (r: Vec<AdminMovement>)
    ensures
        stably_ordered(
            gathered(loan_id, disbursed_at, principal, collateral@, vault@, payouts@, payments@),
            facts_of(r@),
        ),
{
    let mut out: Vec<AdminMovement> = Vec::new();

    let mut c: usize = 0;
    assert(collateral@.skip(0) =~= collateral@);
    while c < collateral.len() && collateral[c].loan_id != loan_id
        invariant
            c <= collateral@.len(),
            position_of(collateral@, loan_id) == position_of(collateral@.skip(c as int), loan_id),
        decreases collateral@.len() - c,
    {
        assert(collateral@.skip(c as int).drop_first() =~= collateral@.skip(c as int + 1));
        c = c + 1;
    }
    proof {
        if c < collateral@.len() {
            assert(collateral@.skip(c as int)[0] == collateral@[c as int]);
        }
    }
    if c < collateral.len() {
        let row = &collateral[c];
        match (&row.lock_tx_hash, row.locked_at) {
            (Some(h), Some(at)) => {
                out.push(AdminMovement {
                    kind: "collateral_lock".to_string(),
                    at,
                    status: "confirmed".to_string(),
                    amount: None,
                    stroops: Some(row.locked_stroops),
                    tx_hash: Some(h.clone()),
                    reference: None,
                });
            },
            _ => {},
        }
    }
    proof {
        assert(facts_of(out@) =~= lock_moves(position_of(collateral@, loan_id)));
    }
    let ghost base = lock_moves(position_of(collateral@, loan_id));

    if let Some(at) = disbursed_at {
        out.push(AdminMovement {
            kind: "disbursed".to_string(),
            at,
            status: "completed".to_string(),
            amount: Some(principal),
            stroops: None,
            tx_hash: None,
            reference: None,
        });
    }
    proof {
        assert(facts_of(out@) =~= base + disbursal_moves(disbursed_at, principal));
    }
    let ghost base = base + disbursal_moves(disbursed_at, principal);

    let mut i: usize = 0;
    while i < payouts.len()
        invariant
            i <= payouts@.len(),
            facts_of(out@) == base + payout_moves(payouts@.subrange(0, i as int), loan_id),
        decreases payouts@.len() - i,
    {
        assert(payouts@.subrange(0, i as int + 1).drop_last() =~= payouts@.subrange(0, i as int));
        let p = &payouts[i];
        let ghost before = out@;
        if p.loan_id == loan_id {
            let reference = match &p.transaction_id {
                Some(t) => Some(t.clone()),
                None => copy_text(&p.batch_id),
            };
            out.push(AdminMovement {
                kind: "payout".to_string(),
                at: p.created_at,
                status: p.status.clone(),
                amount: Some(p.amount),
                stroops: None,
                tx_hash: None,
                reference,
            });
        }
        i = i + 1;
        proof {
            if out@.len() > before.len() {
                lemma_facts_push(before, out@.last());
                assert(out@ =~= before.push(out@.last()));
            } else {
                assert(out@ =~= before);
            }
            assert(facts_of(out@) =~= base + payout_moves(payouts@.subrange(0, i as int), loan_id));
        }
    }
    assert(payouts@.subrange(0, payouts@.len() as int) =~= payouts@);
    let ghost base = base + payout_moves(payouts@, loan_id);

    let mut i: usize = 0;
    while i < payments.len()
        invariant
            i <= payments@.len(),
            facts_of(out@) == base + payment_moves(payments@.subrange(0, i as int), loan_id),
        decreases payments@.len() - i,
    {
        assert(payments@.subrange(0, i as int + 1).drop_last() =~= payments@.subrange(0, i as int));
        let p = payments[i];
        let ghost before = out@;
        if p.loan_id == loan_id {
            out.push(AdminMovement {
                kind: "payment".to_string(),
                at: p.paid_at,
                status: "completed".to_string(),
                amount: Some(p.amount_received),
                stroops: None,
                tx_hash: None,
                reference: None,
            });
        }
        i = i + 1;
        proof {
            if out@.len() > before.len() {
                lemma_facts_push(before, out@.last());
                assert(out@ =~= before.push(out@.last()));
            } else {
                assert(out@ =~= before);
            }
            assert(facts_of(out@) =~= base + payment_moves(payments@.subrange(0, i as int), loan_id));
        }
    }
    assert(payments@.subrange(0, payments@.len() as int) =~= payments@);
    let ghost base = base + payment_moves(payments@, loan_id);

    let mut i: usize = 0;
    while i < vault.len()
        invariant
            i <= vault@.len(),
            facts_of(out@) == base + vault_moves(vault@.subrange(0, i as int), loan_id),
        decreases vault@.len() - i,
    {
        assert(vault@.subrange(0, i as int + 1).drop_last() =~= vault@.subrange(0, i as int));
        let v = &vault[i];
        let ghost before = out@;
        if v.loan_id == loan_id {
            let status = if str_eq(v.status.as_str(), "done") {
                "confirmed".to_string()
            } else {
                v.status.clone()
            };
            out.push(AdminMovement {
                kind: String::from_str("collateral_").concat(v.action.as_str()),
                at: v.at,
                status,
                amount: v.value_centavos,
                stroops: v.moved_stroops,
                tx_hash: copy_text(&v.tx_hash),
                reference: None,
            });
        }
        i = i + 1;
        proof {
            if out@.len() > before.len() {
                lemma_facts_push(before, out@.last());
                assert(out@ =~= before.push(out@.last()));
            } else {
                assert(out@ =~= before);
            }
            assert(facts_of(out@) =~= base + vault_moves(vault@.subrange(0, i as int), loan_id));
        }
    }
    assert(vault@.subrange(0, vault@.len() as int) =~= vault@);
    chronological(out)
}

/// The filter an operator picks, as a fixed fragment of the query: open
/// loans are those that can still be defaulted. Chosen here, never received.
pub open spec fn admin_filter(filter: Seq<char>) -> &'static str {
    if filter == "open"@ {
        "WHERE l.status IN ('pending', 'active')"
    } else if filter == "defaulted"@ {
        "WHERE l.status = 'defaulted'"
    } else {
        ""
    }
}

/// Whitelists the operator's filter.
pub fn admin_where_clause(filter: &str) -> (r: &'static str)
    ensures
        r == admin_filter(filter@),
{
    if str_eq(filter, "open") {
        "WHERE l.status IN ('pending', 'active')"
    } else if str_eq(filter, "defaulted") {
        "WHERE l.status = 'defaulted'"
    } else {
        ""
    }
}

} // verus!
