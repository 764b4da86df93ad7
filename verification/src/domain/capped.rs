//! Pro-rata splitting that never hands anyone more than their own cap.

use vstd::prelude::*;
use super::rounding::lemma_floor_div_bounds;
use super::sums::{
    as_ints, lemma_as_ints_push, lemma_pos_sum_bounds, lemma_sum_int_push, lemma_sum_int_update,
    lemma_take_succ, pos, pos_sum, sum_i64, sum_int,
};

verus! {

/// What is actually taken: the total, never negative and never more than the caps hold.
pub open spec fn capped_total(total: i64, caps: Seq<i64>) -> int {
    let t = if total > 0 {
        total as int
    } else {
        0
    };
    if t < pos_sum(caps) {
        t
    } else {
        pos_sum(caps)
    }
}

/// Each member's exact share, rounded down.
pub open spec fn capped_floor(total: i64, caps: Seq<i64>, i: int) -> int {
    capped_total(total, caps) * pos(caps[i]) / pos_sum(caps)
}

/// What rounding down left of each member's exact share, in units of `1 / sum`.
pub open spec fn capped_rem(total: i64, caps: Seq<i64>, i: int) -> int {
    (capped_total(total, caps) * pos(caps[i])) % pos_sum(caps)
}

/// `i` comes before `j` in the queue for a leftover centavo: a larger
/// remainder first, the earlier index on a tie.
pub open spec fn ahead_of(total: i64, caps: Seq<i64>, i: int, j: int) -> bool {
    capped_rem(total, caps, i) > capped_rem(total, caps, j) || (capped_rem(total, caps, i)
        == capped_rem(total, caps, j) && i < j)
}

pub open spec fn count_true(s: Seq<bool>) -> int
    decreases s.len(),
{
    if s.len() == 0 {
        0
    } else {
        count_true(s.drop_last()) + if s.last() {
            1int
        } else {
            0int
        }
    }
}

pub open spec fn count_nonzero(s: Seq<int>) -> int
    decreases s.len(),
{
    if s.len() == 0 {
        0
    } else {
        count_nonzero(s.drop_last()) + if s.last() != 0 {
            1int
        } else {
            0int
        }
    }
}

proof fn lemma_count_true_update(s: Seq<bool>, i: int)
    requires
        0 <= i < s.len(),
        !s[i],
    ensures
        count_true(s.update(i, true)) == count_true(s) + 1,
    decreases s.len(),
{
    if i == s.len() - 1 {
        assert(s.update(i, true).drop_last() =~= s.drop_last());
    } else {
        assert(s.update(i, true).drop_last() =~= s.drop_last().update(i, true));
        lemma_count_true_update(s.drop_last(), i);
    }
}

proof fn lemma_count_true_all_false(n: nat)
    ensures
        count_true(Seq::new(n, |i: int| false)) == 0,
    decreases n,
{
    if n > 0 {
        assert(Seq::new(n, |i: int| false).drop_last() =~= Seq::new((n - 1) as nat, |i: int| false));
        lemma_count_true_all_false((n - 1) as nat);
    }
}

/// Fewer marks than nonzero entries, and marks only on nonzero entries: some
/// nonzero entry is still unmarked.
proof fn lemma_unmarked_nonzero_exists(marks: Seq<bool>, rems: Seq<int>)
    requires
        marks.len() == rems.len(),
        forall|i: int| 0 <= i < marks.len() && marks[i] ==> rems[i] != 0,
        count_true(marks) < count_nonzero(rems),
    ensures
        exists|i: int| 0 <= i < marks.len() && !marks[i] && rems[i] != 0,
    decreases marks.len(),
{
    let n = marks.len() as int;
    if n > 0 {
        if !marks[n - 1] && rems[n - 1] != 0 {
        } else {
            lemma_unmarked_nonzero_exists(marks.drop_last(), rems.drop_last());
            let i = choose|i: int|
                0 <= i < n - 1 && !marks.drop_last()[i] && rems.drop_last()[i] != 0;
            assert(!marks[i] && rems[i] != 0);
        }
    }
}

/// Remainders below `d` that add up to `left * d` need at least `left` nonzero entries.
proof fn lemma_rems_need_entries(rems: Seq<int>, d: int)
    requires
        d > 0,
        forall|i: int| 0 <= i < rems.len() ==> 0 <= #[trigger] rems[i] < d,
    ensures
        sum_int(rems) <= (d - 1) * count_nonzero(rems),
        sum_int(rems) >= 0,
        count_nonzero(rems) >= 0,
    decreases rems.len(),
{
    if rems.len() > 0 {
        lemma_rems_need_entries(rems.drop_last(), d);
        assert((d - 1) * (count_nonzero(rems.drop_last()) + 1) == (d - 1) * count_nonzero(
            rems.drop_last(),
        ) + (d - 1)) by (nonlinear_arith);
    }
}

proof fn lemma_capped_parts(total: i64, caps: Seq<i64>, k: int)
    requires
        pos_sum(caps) > 0,
        0 <= k <= caps.len(),
    ensures
        pos_sum(caps) * sum_int(Seq::new(k as nat, |i: int| capped_floor(total, caps, i))) + sum_int(
            Seq::new(k as nat, |i: int| capped_rem(total, caps, i)),
        ) == capped_total(total, caps) * pos_sum(caps.take(k)),
    decreases k,
{
    let s = pos_sum(caps);
    let t = capped_total(total, caps);
    let fl = Seq::new(k as nat, |i: int| capped_floor(total, caps, i));
    let rm = Seq::new(k as nat, |i: int| capped_rem(total, caps, i));
    if k == 0 {
        assert(caps.take(0) =~= Seq::<i64>::empty());
    } else {
        lemma_capped_parts(total, caps, k - 1);
        let fl0 = Seq::new((k - 1) as nat, |i: int| capped_floor(total, caps, i));
        let rm0 = Seq::new((k - 1) as nat, |i: int| capped_rem(total, caps, i));
        assert(fl.drop_last() =~= fl0);
        assert(rm.drop_last() =~= rm0);
        assert(caps.take(k).drop_last() =~= caps.take(k - 1));
        let a = t * pos(caps[k - 1]);
        lemma_floor_div_bounds(a, s);
        assert(s * (sum_int(fl0) + a / s) + (sum_int(rm0) + a % s) == t * (pos_sum(caps.take(k - 1))
            + pos(caps[k - 1]))) by (nonlinear_arith)
            requires
                s * sum_int(fl0) + sum_int(rm0) == t * pos_sum(caps.take(k - 1)),
                a == (a / s) * s + a % s,
                a == t * pos(caps[k - 1]),
        ;
    }
}

/// What `apportion_capped` promises of its shares: one per cap, summing to
/// the capped total, each between nothing and its cap; nothing for anyone
/// when there is nothing to share; and otherwise each share is the floor of
/// its exact part or one more, the extra centavos going to nonzero
/// remainders, largest first.
pub open spec fn capped_apportioned(total: i64, caps: Seq<i64>, shares: Seq<i64>) -> bool {
    &&& shares.len() == caps.len()
    &&& sum_i64(shares) == capped_total(total, caps)
    &&& forall|i: int| 0 <= i < caps.len() ==> 0 <= #[trigger] shares[i] <= pos(caps[i])
    &&& capped_total(total, caps) == 0 ==> forall|i: int|
            0 <= i < caps.len() ==> #[trigger] shares[i] == 0
    &&& capped_total(total, caps) > 0 ==> {
            &&& forall|i: int|
                0 <= i < caps.len() ==> #[trigger] shares[i] == capped_floor(total, caps, i)
                    || shares[i] == capped_floor(total, caps, i) + 1
            &&& forall|i: int|
                0 <= i < caps.len() && #[trigger] shares[i] == capped_floor(total, caps, i) + 1
                    ==> capped_rem(total, caps, i) != 0
            &&& forall|i: int, j: int|
                0 <= i < caps.len() && 0 <= j < caps.len() && #[trigger] shares[i]
                    == capped_floor(total, caps, i) + 1 && #[trigger] shares[j] == capped_floor(
                    total,
                    caps,
                    j,
                ) && capped_rem(total, caps, j) != 0 ==> ahead_of(total, caps, i, j)
        }
}

/// Splits `total` across `caps` in proportion to each cap, exact to the
/// centavo, and never gives anyone more than their own cap: everyone gets the
/// floor of their exact share, and the centavos left over go one each to the
/// largest remainders, the earliest index first on a tie. A total above the
/// sum of the caps is clamped to it; a negative one counts as nothing.
pub fn apportion_capped(total: i64, caps: &[i64]) -> (shares: Vec<i64>)
    requires
        caps@.len() <= i64::MAX,
    ensures
        capped_apportioned(total, caps@, shares@),
{
    let n = caps.len();
    let ghost cs = caps@;
    proof {
        lemma_pos_sum_bounds(cs);
    }
    let mut sum: i128 = 0;
    let mut i: usize = 0;
    while i < n
        invariant
            i <= n,
            n == cs.len(),
            cs == caps@,
            n <= i64::MAX,
            sum == pos_sum(cs.take(i as int)),
            0 <= sum <= i * (i64::MAX as int),
        decreases n - i,
    {
        proof {
            lemma_take_succ(cs, i as int);
        }
        if caps[i] > 0 {
            sum = sum + caps[i] as i128;
        }
        i = i + 1;
    }
    proof {
        assert(cs.take(n as int) =~= cs);
    }
    let t0: i128 = if total > 0 {
        total as i128
    } else {
        0
    };
    let t: i128 = if t0 < sum {
        t0
    } else {
        sum
    };
    assert(t == capped_total(total, cs));
    if t == 0 {
        let mut zeros: Vec<i64> = Vec::new();
        let mut j: usize = 0;
        while j < n
            invariant
                j <= n,
                n == cs.len(),
                zeros@.len() == j,
                forall|k: int| 0 <= k < j ==> zeros@[k] == 0,
                sum_i64(zeros@) == 0,
            decreases n - j,
        {
            proof {
                lemma_as_ints_push(zeros@, 0);
                lemma_sum_int_push(as_ints(zeros@), 0);
            }
            zeros.push(0);
            j = j + 1;
        }
        proof {
            assert forall|k: int| 0 <= k < n implies 0 <= #[trigger] zeros@[k] <= pos(cs[k]) by {}
        }
        return zeros;
    }
    let ghost s = sum as int;
    // floors and remainders
    let mut shares: Vec<i64> = Vec::new();
    let mut rems: Vec<i128> = Vec::new();
    let mut floored: i128 = 0;
    let mut j: usize = 0;
    while j < n
        invariant
            j <= n,
            n == cs.len(),
            cs == caps@,
            n <= i64::MAX,
            s == sum,
            s == pos_sum(cs),
            s > 0,
            0 < t <= s,
            t <= i64::MAX,
            t == capped_total(total, cs),
            forall|k: int| 0 <= k < n ==> pos(#[trigger] cs[k]) <= s,
            shares@.len() == j,
            rems@.len() == j,
            forall|k: int| 0 <= k < j ==> #[trigger] shares@[k] == capped_floor(total, cs, k),
            forall|k: int| 0 <= k < j ==> #[trigger] rems@[k] == capped_rem(total, cs, k),
            as_ints(shares@) =~= Seq::new(j as nat, |k: int| capped_floor(total, cs, k)),
            floored == sum_int(as_ints(shares@)),
            0 <= floored <= j * (t as int),
        decreases n - j,
    {
        let c = caps[j];
        let cp: i128 = if c > 0 {
            c as i128
        } else {
            0
        };
        assert(cp == pos(cs[j as int]));
        proof {
            assert(0 <= t * cp <= t * s) by (nonlinear_arith)
                requires
                    t > 0,
                    0 <= cp <= s,
            ;
            assert(t * cp <= i64::MAX * i64::MAX) by (nonlinear_arith)
                requires
                    0 < t <= i64::MAX,
                    0 <= cp <= i64::MAX,
            ;
            lemma_floor_div_bounds(t * cp, s);
            assert((t * cp) / s <= t) by (nonlinear_arith)
                requires
                    ((t * cp) / s) * s <= t * cp,
                    t * cp <= t * s,
                    s > 0,
            ;
        }
        let prod = t * cp;
        let f = prod.checked_div_euclid(sum).unwrap();
        let r = prod.checked_rem_euclid(sum).unwrap();
        proof {
            lemma_as_ints_push(shares@, f as i64);
            lemma_sum_int_push(as_ints(shares@), f as int);
            assert(Seq::new((j + 1) as nat, |k: int| capped_floor(total, cs, k)) =~= Seq::new(
                j as nat,
                |k: int| capped_floor(total, cs, k),
            ).push(f as int));
            assert((j + 1) * (t as int) == j * (t as int) + t) by (nonlinear_arith);
            assert(j * (t as int) <= i64::MAX * i64::MAX) by (nonlinear_arith)
                requires
                    j <= i64::MAX,
                    0 < t <= i64::MAX,
            ;
        }
        shares.push(f as i64);
        rems.push(r);
        floored = floored + f;
        j = j + 1;
    }
    let ghost fl = Seq::new(n as nat, |k: int| capped_floor(total, cs, k));
    let ghost rm = Seq::new(n as nat, |k: int| capped_rem(total, cs, k));
    proof {
        lemma_capped_parts(total, cs, n as int);
        assert(cs.take(n as int) =~= cs);
        assert forall|k: int| 0 <= k < n implies 0 <= #[trigger] rm[k] < s by {
            lemma_floor_div_bounds(t * pos(cs[k]), s);
        }
        lemma_rems_need_entries(rm, s);
        // s * floored + sum(rm) == t * s
        assert(s * (t - floored) == sum_int(rm)) by (nonlinear_arith)
            requires
                s * floored + sum_int(rm) == t * s,
        ;
        assert(t - floored <= count_nonzero(rm)) by (nonlinear_arith)
            requires
                s * (t - floored) == sum_int(rm),
                sum_int(rm) <= (s - 1) * count_nonzero(rm),
                s > 0,
                count_nonzero(rm) >= 0,
        ;
        assert(t - floored >= 0) by (nonlinear_arith)
            requires
                s * (t - floored) == sum_int(rm),
                sum_int(rm) >= 0,
                s > 0,
        ;
    }
    let left: i128 = t - floored;
    let mut bumped: Vec<bool> = Vec::new();
    let mut q: usize = 0;
    while q < n
        invariant
            q <= n,
            bumped@.len() == q,
            forall|k: int| 0 <= k < q ==> !bumped@[k],
        decreases n - q,
    {
        bumped.push(false);
        q = q + 1;
    }
    proof {
        assert(bumped@ =~= Seq::new(n as nat, |i: int| false));
        lemma_count_true_all_false(n as nat);
    }
    let mut given: i128 = 0;
    while given < left
        invariant
            n == cs.len(),
            cs == caps@,
            s == sum,
            s == pos_sum(cs),
            s > 0,
            t == capped_total(total, cs),
            0 < t <= s,
            0 <= given <= left,
            left <= count_nonzero(rm),
            fl == Seq::new(n as nat, |k: int| capped_floor(total, cs, k)),
            rm == Seq::new(n as nat, |k: int| capped_rem(total, cs, k)),
            shares@.len() == n,
            rems@.len() == n,
            bumped@.len() == n,
            forall|k: int| 0 <= k < n ==> #[trigger] rems@[k] == rm[k],
            forall|k: int|
                0 <= k < n ==> #[trigger] shares@[k] == fl[k] + if bumped@[k] {
                    1int
                } else {
                    0int
                },
            forall|k: int| 0 <= k < n && #[trigger] bumped@[k] ==> rm[k] != 0,
            forall|a: int, b: int|
                0 <= a < n && 0 <= b < n && #[trigger] bumped@[a] && !#[trigger] bumped@[b] && rm[b]
                    != 0 ==> ahead_of(total, cs, a, b),
            count_true(bumped@) == given,
            sum_int(as_ints(shares@)) == floored + given,
            forall|k: int| 0 <= k < n ==> pos(#[trigger] cs[k]) <= s,
        decreases left - given,
    {
        proof {
            lemma_unmarked_nonzero_exists(bumped@, rm);
        }
        let mut best: usize = n;
        let mut i: usize = 0;
        while i < n
            invariant
                i <= n,
                n == cs.len(),
                rems@.len() == n,
                bumped@.len() == n,
                forall|k: int| 0 <= k < n ==> #[trigger] rems@[k] == rm[k],
                rm == Seq::new(n as nat, |k: int| capped_rem(total, cs, k)),
                best == n || (best < i && !bumped@[best as int] && rm[best as int] != 0),
                forall|k: int|
                    0 <= k < i && !bumped@[k] && rm[k] != 0 ==> best != n && (k == best
                        || ahead_of(total, cs, best as int, k)),
            decreases n - i,
        {
            if !bumped[i] && rems[i] != 0 {
                if best == n || rems[i] > rems[best] {
                    best = i;
                }
            }
            i = i + 1;
        }
        let ghost chosen = choose|k: int| 0 <= k < n && !bumped@[k] && rm[k] != 0;
        assert(best != n);
        proof {
            // the chosen index is at most one step behind: it exists, so best was set
            assert(!bumped@[chosen] && rm[chosen] != 0);
        }
        let ghost old_bumped = bumped@;
        let ghost old_shares = shares@;
        proof {
            assert(shares@[best as int] == fl[best as int]);
            lemma_floor_div_bounds(t * pos(cs[best as int]), s);
            assert(fl[best as int] + 1 <= pos(cs[best as int])) by (nonlinear_arith)
                requires
                    fl[best as int] * s + rm[best as int] == t * pos(cs[best as int]),
                    rm[best as int] > 0,
                    t <= s,
                    s > 0,
                    pos(cs[best as int]) >= 0,
            ;
        }
        let bumpedv = shares[best] + 1;
        shares.set(best, bumpedv);
        bumped.set(best, true);
        proof {
            lemma_count_true_update(old_bumped, best as int);
            lemma_sum_int_update(as_ints(old_shares), best as int, bumpedv as int);
            assert(as_ints(shares@) =~= as_ints(old_shares).update(best as int, bumpedv as int));
            assert forall|a: int, b: int|
                0 <= a < n && 0 <= b < n && #[trigger] bumped@[a] && !#[trigger] bumped@[b] && rm[b]
                    != 0 implies ahead_of(total, cs, a, b) by {
                if a == best {
                    assert(b != best);
                    assert(!old_bumped[b]);
                } else {
                    assert(old_bumped[a]);
                    assert(!old_bumped[b]);
                }
            }
        }
        given = given + 1;
    }
    proof {
        assert(sum_i64(shares@) == t);
        assert forall|k: int| 0 <= k < n implies 0 <= #[trigger] shares@[k] <= pos(cs[k]) by {
            lemma_floor_div_bounds(t * pos(cs[k]), s);
            assert(0 <= t * pos(cs[k]) <= t * s) by (nonlinear_arith)
                requires
                    t > 0,
                    0 <= pos(cs[k]) <= s,
            ;
            assert(fl[k] >= 0) by (nonlinear_arith)
                requires
                    fl[k] == (t * pos(cs[k])) / s,
                    t * pos(cs[k]) >= 0,
                    s > 0,
            ;
            assert(fl[k] <= pos(cs[k])) by (nonlinear_arith)
                requires
                    fl[k] * s + rm[k] == t * pos(cs[k]),
                    rm[k] >= 0,
                    t <= s,
                    s > 0,
                    pos(cs[k]) >= 0,
            ;
            if bumped@[k] {
                assert(fl[k] + 1 <= pos(cs[k])) by (nonlinear_arith)
                    requires
                        fl[k] * s + rm[k] == t * pos(cs[k]),
                        rm[k] > 0,
                        t <= s,
                        s > 0,
                        pos(cs[k]) >= 0,
                ;
            }
        }
    }
    shares
}

} // verus!
