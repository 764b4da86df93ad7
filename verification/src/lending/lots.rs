//! Deposit lots: how an amount is taken from a member's lots oldest first,
//! how the pool's lots are grouped by member, and how a loan's funding is
//! frozen or released across members in proportion to what each holds.

use vstd::prelude::*;

use super::waterfall::{
    leftover, lemma_shares_before, lemma_waterfall_conserves, room, share, shares_before, waterfall,
};
use crate::domain::capped::{apportion_capped, capped_apportioned};
use crate::domain::sums::{lemma_sum_i64_push, sum_i64};

verus! {

/// What happens to a lot when an amount is taken from it.
#[derive(Clone, Copy, Debug, PartialEq, Eq)]
pub enum LotChange {
    /// Taken whole.
    Remove,
    /// Partly taken: this much is split off it.
    Reduce(i64),
    /// Not reached.
    Keep,
}

pub open spec fn change_of(lot_amount: i64, take: int) -> LotChange {
    if take == lot_amount {
        LotChange::Remove
    } else if take > 0 {
        LotChange::Reduce(take as i64)
    } else {
        LotChange::Keep
    }
}

/// Takes `amount` from lots oldest first, each whole before the next is
/// touched; says what becomes of each lot.
pub fn fifo_changes(amounts: &[i64], amount: i64) -> (r: Vec<LotChange>)
    requires
        amount >= 0,
    ensures
        r@.len() == amounts@.len(),
        forall|k: int|
            0 <= k < amounts@.len() ==> #[trigger] r@[k] == change_of(
                amounts@[k],
                share(amounts@, amount as int, k),
            ),
{
    let (shares, _left) = waterfall(amounts, amount);
    let n = amounts.len();
    let mut out: Vec<LotChange> = Vec::new();
    let mut j: usize = 0;
    while j < n
        invariant
            j <= n,
            n == amounts@.len(),
            shares@.len() == n,
            forall|k: int| 0 <= k < n ==> #[trigger] shares@[k] == share(amounts@, amount as int, k),
            out@.len() == j,
            forall|k: int|
                0 <= k < j ==> #[trigger] out@[k] == change_of(
                    amounts@[k],
                    share(amounts@, amount as int, k),
                ),
        decreases n - j,
    {
        let t = shares[j];
        let change = if t == amounts[j] {
            LotChange::Remove
        } else if t > 0 {
            LotChange::Reduce(t)
        } else {
            LotChange::Keep
        };
        out.push(change);
        j = j + 1;
    }
    out
}

/// A lot and the member who owns it.
#[derive(Clone, Copy, Debug, PartialEq, Eq)]
pub struct MemberLot {
    pub member: u128,
    pub amount: i64,
}

/// One member's lots, in the order given.
pub open spec fn amounts_of(lots: Seq<MemberLot>, member: u128) -> Seq<i64>
    decreases lots.len(),
{
    if lots.len() == 0 {
        Seq::empty()
    } else if lots.last().member == member {
        amounts_of(lots.drop_last(), member).push(lots.last().amount)
    } else {
        amounts_of(lots.drop_last(), member)
    }
}

pub open spec fn holds_lot(lots: Seq<MemberLot>, member: u128) -> bool {
    exists|k: int| 0 <= k < lots.len() && lots[k].member == member
}

/// A member and their lots.
#[derive(Clone, Debug)]
pub struct MemberLots {
    pub member: u128,
    pub amounts: Vec<i64>,
}

/// What `by_member` promises: every member exactly once, in ascending order,
/// each with their own lots in the order given.
pub open spec fn grouped(lots: Seq<MemberLot>, groups: Seq<MemberLots>) -> bool {
    &&& forall|a: int, b: int|
        0 <= a < b < groups.len() ==> #[trigger] groups[a].member < #[trigger] groups[b].member
    &&& forall|m: u128|
        holds_lot(lots, m) <==> exists|g: int| 0 <= g < groups.len() && #[trigger] groups[g].member == m
    &&& forall|g: int| 0 <= g < groups.len() ==> #[trigger] groups[g].amounts@ == amounts_of(lots, groups[g].member)
}

fn insert_sorted(keys: &mut Vec<u128>, m: u128)
    requires
        forall|a: int, b: int| 0 <= a < b < old(keys)@.len() ==> old(keys)@[a] < old(keys)@[b],
    ensures
        forall|a: int, b: int| 0 <= a < b < final(keys)@.len() ==> final(keys)@[a] < final(keys)@[b],
        forall|x: u128| final(keys)@.contains(x) <==> (old(keys)@.contains(x) || x == m),
{
    let n = keys.len();
    let mut j: usize = 0;
    while j < n && keys[j] < m
        invariant
            j <= n,
            n == keys@.len(),
            forall|k: int| 0 <= k < j ==> keys@[k] < m,
        decreases n - j,
    {
        j = j + 1;
    }
    if j < n && keys[j] == m {
        assert(keys@[j as int] == m);
        assert(keys@.contains(m));
        return;
    }
    let ghost before = keys@;
    assert(before == old(keys)@);
    keys.insert(j, m);
    proof {
        assert(keys@ =~= before.subrange(0, j as int).push(m) + before.subrange(j as int, n as int));
        assert forall|x: u128| #[trigger] keys@.contains(x) <==> (before.contains(x) || x == m) by {
            if keys@.contains(x) {
                let k = choose|k: int| 0 <= k < keys@.len() && keys@[k] == x;
                if k < j {
                    assert(before[k] == x);
                } else if k > j {
                    assert(before[k - 1] == x);
                }
            }
            if before.contains(x) {
                let k = choose|k: int| 0 <= k < before.len() && before[k] == x;
                if k < j {
                    assert(keys@[k] == x);
                } else {
                    assert(keys@[k + 1] == x);
                }
            }
            if x == m {
                assert(keys@[j as int] == x);
            }
        }
        assert(forall|x: u128| #[trigger] keys@.contains(x) <==> (old(keys)@.contains(x) || x == m));
    }
}

fn amounts_for(lots: &[MemberLot], member: u128) -> (r: Vec<i64>)
    ensures
        r@ == amounts_of(lots@, member),
{
    let n = lots.len();
    let mut out: Vec<i64> = Vec::new();
    let mut i: usize = 0;
    assert(lots@.take(0) =~= Seq::<MemberLot>::empty());
    while i < n
        invariant
            i <= n,
            n == lots@.len(),
            out@ == amounts_of(lots@.take(i as int), member),
        decreases n - i,
    {
        assert(lots@.take(i + 1).drop_last() =~= lots@.take(i as int));
        if lots[i].member == member {
            out.push(lots[i].amount);
        }
        i = i + 1;
    }
    assert(lots@.take(n as int) =~= lots@);
    out
}

/// Groups lots by member, members in ascending order.
pub fn by_member(lots: &[MemberLot]) -> (r: Vec<MemberLots>)
    ensures
        grouped(lots@, r@),
{
    let n = lots.len();
    let mut keys: Vec<u128> = Vec::new();
    let mut i: usize = 0;
    while i < n
        invariant
            i <= n,
            n == lots@.len(),
            forall|a: int, b: int| 0 <= a < b < keys@.len() ==> keys@[a] < keys@[b],
            forall|x: u128|
                keys@.contains(x) <==> exists|k: int| 0 <= k < i && #[trigger] lots@[k].member == x,
        decreases n - i,
    {
        let m = lots[i].member;
        insert_sorted(&mut keys, m);
        proof {
            assert forall|x: u128|
                keys@.contains(x) <==> exists|k: int| 0 <= k < i + 1 && #[trigger] lots@[k].member == x by {
                if x == m {
                    assert(lots@[i as int].member == x);
                }
            }
        }
        i = i + 1;
    }
    let k = keys.len();
    let mut groups: Vec<MemberLots> = Vec::new();
    let mut g: usize = 0;
    while g < k
        invariant
            g <= k,
            k == keys@.len(),
            groups@.len() == g,
            forall|a: int| 0 <= a < g ==> #[trigger] groups@[a].member == keys@[a],
            forall|a: int| 0 <= a < g ==> #[trigger] groups@[a].amounts@ == amounts_of(lots@, keys@[a]),
        decreases k - g,
    {
        let member = keys[g];
        let amounts = amounts_for(lots, member);
        groups.push(MemberLots { member, amounts });
        g = g + 1;
    }
    proof {
        assert forall|m: u128|
            holds_lot(lots@, m) <==> exists|a: int| 0 <= a < groups@.len() && #[trigger] groups@[a].member == m by {
            if holds_lot(lots@, m) {
                assert(keys@.contains(m));
                let a = choose|a: int| 0 <= a < keys@.len() && keys@[a] == m;
                assert(groups@[a].member == m);
            }
            if exists|a: int| 0 <= a < groups@.len() && #[trigger] groups@[a].member == m {
                let a = choose|a: int| 0 <= a < groups@.len() && #[trigger] groups@[a].member == m;
                assert(keys@[a] == m);
                assert(keys@.contains(m));
            }
        }
    }
    groups
}

/// A member's sum of lots, where it fits.
fn total_of(amounts: &Vec<i64>) -> (r: i64)
    requires
        forall|k: int| 0 <= k < amounts@.len() ==> #[trigger] amounts@[k] > 0,
        sum_i64(amounts@) <= i64::MAX,
    ensures
        r == sum_i64(amounts@),
{
    let n = amounts.len();
    let mut t: i64 = 0;
    let mut i: usize = 0;
    assert(amounts@.take(0) =~= Seq::<i64>::empty());
    while i < n
        invariant
            i <= n,
            n == amounts@.len(),
            forall|k: int| 0 <= k < amounts@.len() ==> #[trigger] amounts@[k] > 0,
            sum_i64(amounts@) <= i64::MAX,
            t == sum_i64(amounts@.take(i as int)),
            t >= 0,
        decreases n - i,
    {
        proof {
            assert(amounts@.take(i + 1) =~= amounts@.take(i as int).push(amounts@[i as int]));
            lemma_sum_i64_push(amounts@.take(i as int), amounts@[i as int]);
            lemma_sum_prefix_le(amounts@, i + 1);
        }
        t = t + amounts[i];
        i = i + 1;
    }
    assert(amounts@.take(n as int) =~= amounts@);
    t
}

/// A prefix of positive amounts sums to no more than the whole.
proof fn lemma_sum_prefix_le(s: Seq<i64>, i: int)
    requires
        0 <= i <= s.len(),
        forall|k: int| 0 <= k < s.len() ==> #[trigger] s[k] > 0,
    ensures
        sum_i64(s.take(i)) <= sum_i64(s),
    decreases s.len() - i,
{
    if i < s.len() {
        lemma_sum_prefix_le(s, i + 1);
        assert(s.take(i + 1) =~= s.take(i).push(s[i]));
        lemma_sum_i64_push(s.take(i), s[i]);
    } else {
        assert(s.take(i) =~= s);
    }
}

/// One member's part in freezing or releasing a loan's funding.
#[derive(Clone, Debug)]
pub struct MemberPlan {
    pub member: u128,
    /// The member's slice of the amount.
    pub slice: i64,
    /// What becomes of each of the member's lots, oldest first.
    pub changes: Vec<LotChange>,
}

/// Every lot's owner holds lots whose sum fits in a centavo figure.
pub open spec fn member_sums_fit(lots: Seq<MemberLot>) -> bool {
    &&& forall|k: int| 0 <= k < lots.len() ==> #[trigger] lots[k].amount > 0
    &&& forall|m: u128| sum_i64(#[trigger] amounts_of(lots, m)) <= i64::MAX
    &&& lots.len() <= i64::MAX
}

pub proof fn lemma_amounts_of_positive(lots: Seq<MemberLot>, m: u128)
    requires
        forall|k: int| 0 <= k < lots.len() ==> #[trigger] lots[k].amount > 0,
    ensures
        forall|k: int| 0 <= k < amounts_of(lots, m).len() ==> #[trigger] amounts_of(lots, m)[k] > 0,
        amounts_of(lots, m).len() <= lots.len(),
    decreases lots.len(),
{
    if lots.len() > 0 {
        lemma_amounts_of_positive(lots.drop_last(), m);
    }
}

/// Spreads `amount` across the members holding `lots`, in proportion to what
/// each holds and never more than they hold, then takes each member's slice
/// from their own lots oldest first. Used both to freeze the pool's lots
/// behind a loan and to release them as the principal comes back.
pub fn funding_plan(amount: i64, lots: &[MemberLot]) -> (r: Vec<MemberPlan>)
    requires
        member_sums_fit(lots@),
    ensures
        amount <= 0 ==> r@.len() == 0,
        amount > 0 ==> {
            let groups = Seq::new(r@.len(), |g: int| r@[g].member);
            let totals = Seq::new(r@.len(), |g: int| sum_i64(amounts_of(lots@, r@[g].member)) as i64);
            let slices = Seq::new(r@.len(), |g: int| r@[g].slice);
            &&& forall|a: int, b: int|
                0 <= a < b < r@.len() ==> #[trigger] r@[a].member < #[trigger] r@[b].member
            &&& forall|m: u128|
                holds_lot(lots@, m) <==> exists|g: int| 0 <= g < r@.len() && #[trigger] r@[g].member == m
            &&& capped_apportioned(amount, totals, slices)
            &&& forall|g: int|
                0 <= g < r@.len() ==> (#[trigger] r@[g].changes)@.len() == amounts_of(
                    lots@,
                    r@[g].member,
                ).len() && forall|k: int|
                    0 <= k < r@[g].changes@.len() ==> #[trigger] r@[g].changes@[k] == change_of(
                        amounts_of(lots@, r@[g].member)[k],
                        share(amounts_of(lots@, r@[g].member), r@[g].slice as int, k),
                    )
        },
{
    let mut plan: Vec<MemberPlan> = Vec::new();
    if amount <= 0 {
        return plan;
    }
    let groups = by_member(lots);
    let k = groups.len();
    let mut totals: Vec<i64> = Vec::new();
    let mut g: usize = 0;
    while g < k
        invariant
            g <= k,
            k == groups@.len(),
            grouped(lots@, groups@),
            member_sums_fit(lots@),
            totals@.len() == g,
            forall|a: int| 0 <= a < g ==> #[trigger] totals@[a] == sum_i64(amounts_of(lots@, groups@[a].member)),
        decreases k - g,
    {
        proof {
            lemma_amounts_of_positive(lots@, groups@[g as int].member);
        }
        let t = total_of(&groups[g].amounts);
        totals.push(t);
        g = g + 1;
    }
    proof {
        lemma_groups_count(lots@, groups@);
    }
    let slices = apportion_capped(amount, totals.as_slice());
    let mut p: usize = 0;
    while p < k
        invariant
            p <= k,
            k == groups@.len(),
            grouped(lots@, groups@),
            amount > 0,
            totals@.len() == k,
            forall|a: int| 0 <= a < k ==> #[trigger] totals@[a] == sum_i64(amounts_of(lots@, groups@[a].member)),
            capped_apportioned(amount, totals@, slices@),
            plan@.len() == p,
            forall|a: int| 0 <= a < p ==> #[trigger] plan@[a].member == groups@[a].member,
            forall|a: int| 0 <= a < p ==> #[trigger] plan@[a].slice == slices@[a],
            forall|g: int|
                0 <= g < p ==> (#[trigger] plan@[g].changes)@.len() == amounts_of(lots@, plan@[g].member).len()
                    && forall|j: int|
                    0 <= j < plan@[g].changes@.len() ==> #[trigger] plan@[g].changes@[j] == change_of(
                        amounts_of(lots@, plan@[g].member)[j],
                        share(amounts_of(lots@, plan@[g].member), plan@[g].slice as int, j),
                    ),
        decreases k - p,
    {
        let slice = slices[p];
        assert(slice >= 0);
        let changes = fifo_changes(groups[p].amounts.as_slice(), slice);
        plan.push(MemberPlan { member: groups[p].member, slice, changes });
        p = p + 1;
    }
    proof {
        let r = plan@;
        let totals_v = Seq::new(r.len(), |g: int| sum_i64(amounts_of(lots@, r[g].member)) as i64);
        let slices_v = Seq::new(r.len(), |g: int| r[g].slice);
        assert(totals_v =~= totals@);
        assert(slices_v =~= slices@);
        assert forall|m: u128|
            holds_lot(lots@, m) <==> exists|g: int| 0 <= g < r.len() && #[trigger] r[g].member == m by {
            if holds_lot(lots@, m) {
                let g = choose|g: int| 0 <= g < groups@.len() && #[trigger] groups@[g].member == m;
                assert(r[g].member == m);
            }
            if exists|g: int| 0 <= g < r.len() && #[trigger] r[g].member == m {
                let g = choose|g: int| 0 <= g < r.len() && #[trigger] r[g].member == m;
                assert(groups@[g].member == m);
            }
        }
    }
    plan
}

/// There are no more groups than lots.
proof fn lemma_groups_count(lots: Seq<MemberLot>, groups: Seq<MemberLots>)
    requires
        grouped(lots, groups),
        lots.len() <= i64::MAX,
    ensures
        groups.len() <= i64::MAX,
{
    // Each group's member holds a lot, and members are distinct, so each
    // group can be matched to a distinct lot index.
    lemma_groups_injective(lots, groups, groups.len() as int);
}

proof fn lemma_groups_injective(lots: Seq<MemberLot>, groups: Seq<MemberLots>, n: int)
    requires
        grouped(lots, groups),
        0 <= n <= groups.len(),
    ensures
        n <= lots.len(),
    decreases n,
{
    if n > 0 {
        let members = Seq::new(n as nat, |g: int| groups[g].member);
        let owners = Set::new(|m: u128| holds_lot(lots, m));
        let lot_members = Seq::new(lots.len(), |k: int| lots[k].member).to_set();
        assert forall|g: int| 0 <= g < n implies lot_members.contains(#[trigger] members[g]) by {
            assert(holds_lot(lots, groups[g].member));
            let k = choose|k: int| 0 <= k < lots.len() && lots[k].member == groups[g].member;
            assert(Seq::new(lots.len(), |k: int| lots[k].member)[k] == members[g]);
        }
        assert(members.no_duplicates()) by {
            assert forall|a: int, b: int| 0 <= a < members.len() && 0 <= b < members.len() && a != b
                implies members[a] != members[b] by {
                if a < b {
                    assert(groups[a].member < groups[b].member);
                } else {
                    assert(groups[b].member < groups[a].member);
                }
            }
        }
        members.unique_seq_to_set();
        Seq::new(lots.len(), |k: int| lots[k].member).lemma_cardinality_of_set();
        assert(members.to_set().subset_of(lot_members));
        vstd::set_lib::lemma_len_subset(members.to_set(), lot_members);
    }
}

pub open spec fn member_amounts(lots: Seq<MemberLot>) -> Seq<i64> {
    Seq::new(lots.len(), |k: int| lots[k].amount)
}

/// Where member `m` stands in a running tally, if anywhere.
pub open spec fn key_index(t: Seq<(u128, i64)>, m: u128) -> Option<int>
    decreases t.len(),
{
    if t.len() == 0 {
        None
    } else if t.last().0 == m {
        Some(t.len() - 1)
    } else {
        key_index(t.drop_last(), m)
    }
}

/// A tally with `a` more credited to member `m`.
pub open spec fn add_to(t: Seq<(u128, i64)>, m: u128, a: int) -> Seq<(u128, i64)> {
    match key_index(t, m) {
        Some(j) => t.update(j, (m, (t[j].1 + a) as i64)),
        None => t.push((m, a as i64)),
    }
}

/// What each member has had taken once the first `i` lots are reached, in
/// the order the members first gave something up.
pub open spec fn tally(lots: Seq<MemberLot>, limit: int, i: int) -> Seq<(u128, i64)>
    decreases i,
{
    if i <= 0 {
        Seq::empty()
    } else {
        let t = tally(lots, limit, i - 1);
        let s = share(member_amounts(lots), limit, i - 1);
        if s > 0 {
            add_to(t, lots[i - 1].member, s)
        } else {
            t
        }
    }
}

pub open spec fn tally_total(t: Seq<(u128, i64)>) -> int
    decreases t.len(),
{
    if t.len() == 0 {
        0
    } else {
        tally_total(t.drop_last()) + t.last().1
    }
}

proof fn lemma_key_index(t: Seq<(u128, i64)>, m: u128)
    ensures
        match key_index(t, m) {
            Some(j) => 0 <= j < t.len() && t[j].0 == m,
            None => forall|k: int| 0 <= k < t.len() ==> #[trigger] t[k].0 != m,
        },
    decreases t.len(),
{
    if t.len() > 0 && t.last().0 != m {
        lemma_key_index(t.drop_last(), m);
        if key_index(t, m) is None {
            assert forall|k: int| 0 <= k < t.len() implies #[trigger] t[k].0 != m by {
                if k < t.len() - 1 {
                    assert(t.drop_last()[k] == t[k]);
                }
            }
        }
    }
}

proof fn lemma_tally_total_update(t: Seq<(u128, i64)>, j: int, v: (u128, i64))
    requires
        0 <= j < t.len(),
    ensures
        tally_total(t.update(j, v)) == tally_total(t) - t[j].1 + v.1,
    decreases t.len(),
{
    if j < t.len() - 1 {
        lemma_tally_total_update(t.drop_last(), j, v);
        assert(t.update(j, v).drop_last() =~= t.drop_last().update(j, v));
    } else {
        assert(t.update(j, v).drop_last() =~= t.drop_last());
    }
}

proof fn lemma_tally_entry_le(t: Seq<(u128, i64)>, j: int)
    requires
        0 <= j < t.len(),
        forall|k: int| 0 <= k < t.len() ==> #[trigger] t[k].1 >= 0,
    ensures
        0 <= t[j].1 <= tally_total(t),
    decreases t.len(),
{
    lemma_tally_nonneg(t.drop_last());
    if j < t.len() - 1 {
        lemma_tally_entry_le(t.drop_last(), j);
    }
}

proof fn lemma_tally_nonneg(t: Seq<(u128, i64)>)
    requires
        forall|k: int| 0 <= k < t.len() ==> #[trigger] t[k].1 >= 0,
    ensures
        tally_total(t) >= 0,
    decreases t.len(),
{
    if t.len() > 0 {
        lemma_tally_nonneg(t.drop_last());
    }
}

/// Lots seized against a shortfall.
#[derive(Clone, Debug)]
pub struct Seizure {
    /// What becomes of each lot, in the order given.
    pub changes: Vec<LotChange>,
    /// What each member gave up, in the order they first gave something.
    pub by_member: Vec<(u128, i64)>,
    /// Everything taken.
    pub total: i64,
}

/// Seizes up to `limit` from the lots, oldest first, and tallies it by
/// member. Everything taken is accounted to someone: the members' amounts add
/// up to the total, which is the limit or all the lots hold, whichever is
/// less.
pub fn seize(lots: &[MemberLot], limit: i64) -> (r: Seizure)
    requires
        limit >= 0,
        forall|k: int| 0 <= k < lots@.len() ==> #[trigger] lots@[k].amount > 0,
    ensures
        r.changes@.len() == lots@.len(),
        forall|k: int|
            0 <= k < lots@.len() ==> #[trigger] r.changes@[k] == change_of(
                lots@[k].amount,
                share(member_amounts(lots@), limit as int, k),
            ),
        r.by_member@ == tally(lots@, limit as int, lots@.len() as int),
        r.total == shares_before(member_amounts(lots@), limit as int, lots@.len() as int),
        tally_total(r.by_member@) == r.total,
        0 <= r.total <= limit,
{
    let n = lots.len();
    let mut amounts: Vec<i64> = Vec::new();
    let mut i: usize = 0;
    while i < n
        invariant
            i <= n,
            n == lots@.len(),
            amounts@.len() == i,
            forall|k: int| 0 <= k < i ==> #[trigger] amounts@[k] == lots@[k].amount,
        decreases n - i,
    {
        amounts.push(lots[i].amount);
        i = i + 1;
    }
    assert(amounts@ =~= member_amounts(lots@));
    let (shares, _left) = waterfall(amounts.as_slice(), limit);
    proof {
        lemma_waterfall_conserves(amounts@, limit as int);
    }
    let ghost caps = amounts@;
    let ghost m = limit as int;
    let mut changes: Vec<LotChange> = Vec::new();
    let mut by_member: Vec<(u128, i64)> = Vec::new();
    let mut total: i64 = 0;
    let mut j: usize = 0;
    while j < n
        invariant
            j <= n,
            n == lots@.len(),
            caps == member_amounts(lots@),
            m == limit,
            limit >= 0,
            shares@.len() == n,
            forall|k: int| 0 <= k < n ==> #[trigger] shares@[k] == share(caps, m, k),
            changes@.len() == j,
            forall|k: int|
                0 <= k < j ==> #[trigger] changes@[k] == change_of(lots@[k].amount, share(caps, m, k)),
            by_member@ == tally(lots@, m, j as int),
            forall|k: int| 0 <= k < by_member@.len() ==> #[trigger] by_member@[k].1 >= 0,
            total == shares_before(caps, m, j as int),
            tally_total(by_member@) == total,
        decreases n - j,
    {
        let t = shares[j];
        proof {
            lemma_shares_before(caps, m, (j + 1) as int);
            assert(shares_before(caps, m, (j + 1) as int) == total + t);
        }
        let lot = lots[j];
        let change = if t == lot.amount {
            LotChange::Remove
        } else if t > 0 {
            LotChange::Reduce(t)
        } else {
            LotChange::Keep
        };
        changes.push(change);
        if t > 0 {
            let mut k: usize = by_member.len();
            assert(by_member@.take(k as int) =~= by_member@);
            while k > 0 && by_member[k - 1].0 != lot.member
                invariant
                    k <= by_member@.len(),
                    key_index(by_member@.take(k as int), lot.member) == key_index(by_member@, lot.member),
                decreases k,
            {
                assert(by_member@.take(k as int).drop_last() =~= by_member@.take(k - 1));
                k = k - 1;
            }
            proof {
                if k == 0 {
                    assert(by_member@.take(0) =~= Seq::<(u128, i64)>::empty());
                } else {
                    assert(by_member@.take(k as int).last() == by_member@[k - 1]);
                }
                lemma_key_index(by_member@, lot.member);
            }
            if k == 0 {
                proof {
                    assert(by_member@.push((lot.member, t)).drop_last() =~= by_member@);
                }
                by_member.push((lot.member, t));
            } else {
                let (who, had) = by_member[k - 1];
                proof {
                    lemma_tally_entry_le(by_member@, k - 1);
                    lemma_tally_total_update(by_member@, k - 1, (who, (had + t) as i64));
                }
                by_member.set(k - 1, (who, had + t));
            }
        }
        total = total + t;
        j = j + 1;
    }
    r_seizure(changes, by_member, total)
}

fn r_seizure(changes: Vec<LotChange>, by_member: Vec<(u128, i64)>, total: i64) -> (r: Seizure)
    ensures
        r.changes == changes,
        r.by_member == by_member,
        r.total == total,
{
    Seizure { changes, by_member, total }
}

} // verus!
