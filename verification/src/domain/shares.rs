//! Splitting a sum of centavos between many people, exact to the centavo.

use vstd::prelude::*;
use super::rounding::{
    half_even, lemma_floor_div_bounds, lemma_half_even_bounds, lemma_half_even_within,
    round_half_even,
};
use super::sums::{
    as_ints, lemma_as_ints_push, lemma_pos_sum_bounds, lemma_sum_int_nonneg, lemma_sum_int_nonneg_ge_elem,
    lemma_sum_int_push, lemma_sum_int_update, lemma_take_succ, pos, pos_sum, sum_i64, sum_int,
};

verus! {

/// Index of the largest weight; ties go to the earliest.
pub open spec fn first_max(ws: Seq<i64>) -> int
    decreases ws.len(),
{
    if ws.len() <= 1 {
        0
    } else {
        let m = first_max(ws.drop_last());
        if ws.last() > ws[m] {
            ws.len() - 1
        } else {
            m
        }
    }
}

/// Each weight's share rounded on its own: `total * weight / sum`, half-even.
pub open spec fn raw_shares(total: int, ws: Seq<i64>) -> Seq<int> {
    Seq::new(ws.len(), |i: int| half_even(total * pos(ws[i]), pos_sum(ws)))
}

/// What is taken back from share `i` when `excess` is taken back from the
/// shares in order, each down to nothing before the next is touched.
pub open spec fn taken_back(raw: Seq<int>, excess: int, i: int) -> int {
    let left = excess - sum_int(raw.take(i));
    if left <= 0 {
        0
    } else if left < raw[i] {
        left
    } else {
        raw[i]
    }
}

/// The shares with `excess` taken back from them in order, none below zero.
pub open spec fn trimmed(raw: Seq<int>, excess: int) -> Seq<int> {
    Seq::new(raw.len(), |i: int| raw[i] - taken_back(raw, excess, i))
}

/// What `apportion` hands out: the rounded shares, with whatever rounding
/// gained or lost against the total given to the largest weight. When
/// rounding gave out more than the total and the largest share cannot give
/// all of it back, the excess is instead taken back from the shares in
/// order, so nobody's share goes below zero. Nothing to share, or nobody to
/// share it by, gives all zeros.
pub open spec fn apportioned(total: int, ws: Seq<i64>) -> Seq<int> {
    if total <= 0 || pos_sum(ws) == 0 {
        Seq::new(ws.len(), |i: int| 0int)
    } else {
        let raw = raw_shares(total, ws);
        let m = first_max(ws);
        let residual = total - sum_int(raw);
        if raw[m] + residual >= 0 {
            raw.update(m, raw[m] + residual)
        } else {
            trimmed(raw, -residual)
        }
    }
}

proof fn lemma_raw_in_range(total: int, ws: Seq<i64>)
    requires
        total > 0,
        pos_sum(ws) > 0,
        total <= i64::MAX,
    ensures
        forall|q: int| 0 <= q < ws.len() ==> 0 <= #[trigger] raw_shares(total, ws)[q] <= total,
{
    let s = pos_sum(ws);
    lemma_pos_sum_bounds(ws);
    assert forall|q: int| 0 <= q < ws.len() implies 0 <= #[trigger] raw_shares(total, ws)[q] <= total by {
        assert(0 <= total * pos(ws[q]) <= total * s) by (nonlinear_arith)
            requires
                total > 0,
                0 <= pos(ws[q]) <= s,
        ;
        lemma_half_even_within(total * pos(ws[q]), s, total);
    }
}

/// Taking `e` back from non-negative shares in order takes `e`, or all of
/// them when there is less, and leaves nothing negative.
proof fn lemma_trimmed(raw: Seq<int>, e: int)
    requires
        e >= 0,
        forall|i: int| 0 <= i < raw.len() ==> raw[i] >= 0,
    ensures
        sum_int(trimmed(raw, e)) == sum_int(raw) - (if e < sum_int(raw) { e } else { sum_int(raw) }),
        forall|i: int| 0 <= i < raw.len() ==> #[trigger] trimmed(raw, e)[i] >= 0,
    decreases raw.len(),
{
    lemma_sum_int_nonneg(raw);
    if raw.len() > 0 {
        let d = raw.drop_last();
        lemma_trimmed(d, e);
        assert forall|i: int| 0 <= i < d.len() implies trimmed(raw, e)[i] == #[trigger] trimmed(d, e)[i] by {
            assert(raw.take(i) =~= d.take(i));
        }
        assert(trimmed(raw, e).drop_last() =~= trimmed(d, e));
        assert(raw.take(raw.len() - 1) =~= d);
        lemma_sum_int_nonneg(d);
    }
}

proof fn lemma_first_max_range(ws: Seq<i64>)
    ensures
        ws.len() > 0 ==> 0 <= first_max(ws) < ws.len(),
    decreases ws.len(),
{
    if ws.len() > 1 {
        lemma_first_max_range(ws.drop_last());
    }
}

proof fn lemma_first_max_take(ws: Seq<i64>, i: int)
    requires
        1 <= i < ws.len(),
    ensures
        first_max(ws.take(i + 1)) == (if ws[i] > ws[first_max(ws.take(i))] {
            i
        } else {
            first_max(ws.take(i))
        }),
{
    assert(ws.take(i + 1).drop_last() =~= ws.take(i));
    lemma_first_max_range(ws.take(i));
    let m = first_max(ws.take(i));
    assert(ws.take(i + 1)[m] == ws[m]);
    assert(ws.take(i + 1).last() == ws[i]);
}

/// The apportioned shares always add back up to the total, none is negative,
/// and all are zero when there is nothing to share or nobody to share it by.
pub proof fn lemma_apportioned_sums_to_total(total: int, ws: Seq<i64>)
    ensures
        apportioned(total, ws).len() == ws.len(),
        total > 0 && pos_sum(ws) > 0 ==> sum_int(apportioned(total, ws)) == total,
        !(total > 0 && pos_sum(ws) > 0) ==> forall|i: int|
            0 <= i < ws.len() ==> #[trigger] apportioned(total, ws)[i] == 0,
        total <= i64::MAX ==> forall|i: int| 0 <= i < ws.len() ==> #[trigger] apportioned(total, ws)[i] >= 0,
{
    lemma_pos_sum_bounds(ws);
    if total > 0 && pos_sum(ws) > 0 {
        if ws.len() == 0 {
            assert(pos_sum(ws) == 0);
        }
        lemma_first_max_range(ws);
        let raw = raw_shares(total, ws);
        let m = first_max(ws);
        let residual = total - sum_int(raw);
        if total <= i64::MAX {
            lemma_raw_in_range(total, ws);
        }
        if raw[m] + residual >= 0 {
            lemma_sum_int_update(raw, m, raw[m] + residual);
        } else {
            // rounding gave out more than the total: take the excess back
            assert forall|q: int| 0 <= q < raw.len() implies raw[q] >= 0 by {
                assert(0 <= total * pos(ws[q])) by (nonlinear_arith)
                    requires
                        total > 0,
                        0 <= pos(ws[q]),
                ;
                lemma_floor_div_bounds(total * pos(ws[q]), pos_sum(ws));
                lemma_half_even_bounds(total * pos(ws[q]), pos_sum(ws));
            }
            lemma_trimmed(raw, -residual);
        }
    } else {
        assert forall|i: int| 0 <= i < ws.len() implies #[trigger] apportioned(total, ws)[i] == 0 by {
        }
    }
}

/// S * (sum of the first k rounded shares) is at most total * (their weight) + k * S.
proof fn lemma_raw_prefix_bound(total: int, ws: Seq<i64>, k: int)
    requires
        total > 0,
        pos_sum(ws) > 0,
        0 <= k <= ws.len(),
    ensures
        pos_sum(ws) * sum_int(raw_shares(total, ws).take(k)) <= total * pos_sum(ws.take(k)) + k
            * pos_sum(ws),
        sum_int(raw_shares(total, ws).take(k)) >= 0,
    decreases k,
{
    let s = pos_sum(ws);
    let raw = raw_shares(total, ws);
    if k == 0 {
        assert(raw.take(0) =~= Seq::<int>::empty());
        assert(ws.take(0) =~= Seq::<i64>::empty());
    } else {
        lemma_raw_prefix_bound(total, ws, k - 1);
        assert(raw.take(k).drop_last() =~= raw.take(k - 1));
        assert(ws.take(k).drop_last() =~= ws.take(k - 1));
        let w = pos(ws[k - 1]);
        assert(w >= 0);
        let a = total * w;
        assert(a >= 0) by (nonlinear_arith)
            requires
                total > 0,
                w >= 0,
                a == total * w,
        ;
        lemma_half_even_bounds(a, s);
        lemma_floor_div_bounds(a, s);
        let prev = sum_int(raw.take(k - 1));
        let r = raw[k - 1];
        assert(r == half_even(a, s));
        assert(sum_int(raw.take(k)) == prev + r);
        let pw = pos_sum(ws.take(k - 1));
        assert(pos_sum(ws.take(k)) == pw + w);
        assert(s * (prev + r) <= total * (pw + w) + k * s) by (nonlinear_arith)
            requires
                s * prev <= total * pw + (k - 1) * s,
                s * r <= a + s,
                a == total * w,
        ;
    }
}

/// Splits `total` across `weights` in proportion to each weight, exact to the
/// centavo: each share is `total * weight / sum` rounded half to even, and the
/// few centavos rounding gains or loses go to the largest weight (the earliest
/// of any tied), so the shares always sum to `total`. Nobody is charged a
/// negative amount: when the largest share cannot give back what rounding
/// over-allocated, the excess is taken back from the shares in order instead. A zero or negative total,
/// or weights summing to nothing, give all zeros.
pub fn apportion(total: i64, weights: &[i64]) -> (shares: Vec<i64>)
    requires
        weights@.len() <= i64::MAX,
    ensures
        as_ints(shares@) =~= apportioned(total as int, weights@),
        shares@.len() == weights@.len(),
        total > 0 && pos_sum(weights@) > 0 ==> sum_i64(shares@) == total,
        !(total > 0 && pos_sum(weights@) > 0) ==> forall|i: int|
            0 <= i < shares@.len() ==> #[trigger] shares@[i] == 0,
        forall|i: int| 0 <= i < shares@.len() ==> #[trigger] shares@[i] >= 0,
{
    let n = weights.len();
    let ghost ws = weights@;
    proof {
        lemma_pos_sum_bounds(ws);
        lemma_apportioned_sums_to_total(total as int, ws);
    }
    let mut sum: i128 = 0;
    let mut i: usize = 0;
    while i < n
        invariant
            i <= n,
            n == ws.len(),
            ws == weights@,
            n <= i64::MAX,
            sum == pos_sum(ws.take(i as int)),
            0 <= sum <= i * (i64::MAX as int),
        decreases n - i,
    {
        let w = weights[i];
        proof {
            lemma_take_succ(ws, i as int);
        }
        if w > 0 {
            sum = sum + w as i128;
        }
        i = i + 1;
    }
    proof {
        assert(ws.take(n as int) =~= ws);
    }
    if total <= 0 || sum == 0 || n == 0 {
        let mut zeros: Vec<i64> = Vec::new();
        let mut j: usize = 0;
        while j < n
            invariant
                j <= n,
                n == ws.len(),
                zeros@.len() == j,
                forall|k: int| 0 <= k < j ==> zeros@[k] == 0,
            decreases n - j,
        {
            zeros.push(0);
            j = j + 1;
        }
        return zeros;
    }
    let ghost s = sum as int;
    let ghost raw = raw_shares(total as int, ws);
    let mut shares: Vec<i64> = Vec::new();
    let mut allocated: i128 = 0;
    let mut j: usize = 0;
    while j < n
        invariant
            j <= n,
            n == ws.len(),
            ws == weights@,
            total > 0,
            s == sum,
            n <= i64::MAX,
            s == pos_sum(ws),
            s > 0,
            s <= n * (i64::MAX as int),
            raw == raw_shares(total as int, ws),
            forall|k: int| 0 <= k < n ==> pos(#[trigger] ws[k]) <= s,
            shares@.len() == j,
            as_ints(shares@) =~= raw.take(j as int),
            allocated == sum_int(raw.take(j as int)),
            0 <= allocated <= j * (total as int),
        decreases n - j,
    {
        let w = weights[j];
        let wp: i64 = if w > 0 {
            w
        } else {
            0
        };
        assert(wp == pos(ws[j as int]));
        proof {
            assert(0 <= total * wp <= total * s) by (nonlinear_arith)
                requires
                    total > 0,
                    0 <= wp <= s,
            ;
            assert(total * wp <= i64::MAX * i64::MAX) by (nonlinear_arith)
                requires
                    0 < total <= i64::MAX,
                    0 <= wp <= i64::MAX,
            ;
            lemma_half_even_within(total * wp, s, total as int);
        }
        let share = round_half_even(total as i128 * wp as i128, sum);
        assert(share == raw[j as int]);
        proof {
            lemma_as_ints_push(shares@, share);
            lemma_take_succ(raw, j as int);
            lemma_sum_int_push(raw.take(j as int), share as int);
            assert((j + 1) * (total as int) == j * (total as int) + total) by (nonlinear_arith);
            assert(j * (total as int) <= i64::MAX * i64::MAX) by (nonlinear_arith)
                requires
                    j <= i64::MAX,
                    0 < total <= i64::MAX,
            ;
        }
        shares.push(share);
        allocated = allocated + share as i128;
        j = j + 1;
    }
    proof {
        assert(raw.take(n as int) =~= raw);
        lemma_raw_prefix_bound(total as int, ws, n as int);
        assert(ws.take(n as int) =~= ws);
        // s * allocated <= total * s + n * s, so allocated <= total + n
        assert(allocated <= total + n) by (nonlinear_arith)
            requires
                s * allocated <= total * s + n * s,
                s > 0,
        ;
    }
    let mut largest: usize = 0;
    let mut k: usize = 1;
    while k < n
        invariant
            1 <= k <= n,
            n == ws.len(),
            ws == weights@,
            largest < k,
            largest == first_max(ws.take(k as int)),
        decreases n - k,
    {
        proof {
            lemma_first_max_take(ws, k as int);
            assert(ws.take(k as int)[largest as int] == ws[largest as int]);
        }
        if weights[k] > weights[largest] {
            largest = k;
        }
        k = k + 1;
    }
    proof {
        assert(ws.take(n as int) =~= ws);
        assert(ws.take(1) =~= seq![ws[0]]);
        lemma_first_max_range(ws);
        assert forall|q: int| 0 <= q < n implies raw[q] >= 0 by {
            assert(0 <= total * pos(ws[q]) <= total * s) by (nonlinear_arith)
                requires
                    total > 0,
                    0 <= pos(ws[q]) <= s,
            ;
            lemma_half_even_within(total * pos(ws[q]), s, total as int);
        }
        lemma_sum_int_nonneg_ge_elem(raw, largest as int);
    }
    let residual = total as i128 - allocated;
    let adjusted = shares[largest] as i128 + residual;
    proof {
        assert(shares@[largest as int] == raw[largest as int]);
        lemma_raw_in_range(total as int, ws);
    }
    if adjusted >= 0 {
        shares.set(largest, adjusted as i64);
        proof {
            assert(as_ints(shares@) =~= raw.update(
                largest as int,
                raw[largest as int] + (total - sum_int(raw)),
            ));
        }
    } else {
        // Rounding gave out more than the total and the largest share cannot
        // give it all back: take the excess back from the shares in order.
        let excess: i128 = allocated - total as i128;
        let ghost before_trim = shares@;
        assert(excess > 0 && excess <= n);
        let mut before: i128 = 0;
        let mut q: usize = 0;
        while q < n
            invariant
                q <= n,
                n == ws.len(),
                n <= i64::MAX,
                total > 0,
                shares@.len() == n,
                as_ints(before_trim) =~= raw,
                raw.len() == n,
                before_trim.len() == n,
                excess == sum_int(raw) - total,
                0 < excess <= n,
                forall|k: int| 0 <= k < n ==> 0 <= #[trigger] raw[k] <= total,
                forall|k: int| 0 <= k < q ==> shares@[k] as int == #[trigger] trimmed(raw, excess as int)[k],
                forall|k: int| q <= k < n ==> #[trigger] shares@[k] == before_trim[k],
                before == sum_int(raw.take(q as int)),
                0 <= before <= q * (total as int),
            decreases n - q,
        {
            let x = shares[q];
            assert(as_ints(before_trim)[q as int] == before_trim[q as int] as int);
            assert(x as int == raw[q as int]);
            let left = excess - before;
            let t: i128 = if left <= 0 {
                0
            } else if left < x as i128 {
                left
            } else {
                x as i128
            };
            assert(t == taken_back(raw, excess as int, q as int));
            proof {
                lemma_take_succ(raw, q as int);
                lemma_sum_int_push(raw.take(q as int), raw[q as int]);
                assert((q + 1) * (total as int) == q * (total as int) + total) by (nonlinear_arith);
                assert(q * (total as int) <= i64::MAX * i64::MAX) by (nonlinear_arith)
                    requires
                        q <= i64::MAX,
                        0 < total <= i64::MAX,
                ;
            }
            shares.set(q, (x as i128 - t) as i64);
            before = before + x as i128;
            q = q + 1;
        }
        proof {
            assert(as_ints(shares@) =~= trimmed(raw, excess as int));
        }
    }
    proof {
        lemma_apportioned_sums_to_total(total as int, ws);
        assert(as_ints(shares@) =~= apportioned(total as int, ws));
        assert(sum_i64(shares@) == sum_int(as_ints(shares@)));
        assert forall|i: int| 0 <= i < shares@.len() implies #[trigger] shares@[i] >= 0 by {
            assert(as_ints(shares@)[i] == shares@[i] as int);
        }
    }
    shares
}

} // verus!
