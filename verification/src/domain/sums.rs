//! Sums over sequences of money, and the few facts about them the
//! apportioning proofs need.

use vstd::prelude::*;

verus! {

/// The integers a vector of centavos denotes.
pub open spec fn as_ints(s: Seq<i64>) -> Seq<int> {
    s.map_values(|v: i64| v as int)
}

pub open spec fn sum_int(s: Seq<int>) -> int
    decreases s.len(),
{
    if s.len() == 0 {
        0
    } else {
        sum_int(s.drop_last()) + s.last()
    }
}

/// The sum of a vector of centavos.
pub open spec fn sum_i64(s: Seq<i64>) -> int {
    sum_int(as_ints(s))
}

/// A weight as the apportioning rules read it: negatives count as nothing.
pub open spec fn pos(w: i64) -> int {
    if w > 0 {
        w as int
    } else {
        0
    }
}

pub open spec fn pos_sum(s: Seq<i64>) -> int
    decreases s.len(),
{
    if s.len() == 0 {
        0
    } else {
        pos_sum(s.drop_last()) + pos(s.last())
    }
}

pub proof fn lemma_sum_int_push(s: Seq<int>, x: int)
    ensures
        sum_int(s.push(x)) == sum_int(s) + x,
{
    assert(s.push(x).drop_last() =~= s);
}

pub proof fn lemma_as_ints_push(s: Seq<i64>, x: i64)
    ensures
        as_ints(s.push(x)) =~= as_ints(s).push(x as int),
{
}

pub proof fn lemma_sum_i64_push(s: Seq<i64>, x: i64)
    ensures
        sum_i64(s.push(x)) == sum_i64(s) + x,
{
    lemma_as_ints_push(s, x);
    lemma_sum_int_push(as_ints(s), x as int);
}

pub proof fn lemma_sum_int_update(s: Seq<int>, i: int, v: int)
    requires
        0 <= i < s.len(),
    ensures
        sum_int(s.update(i, v)) == sum_int(s) - s[i] + v,
    decreases s.len(),
{
    if i == s.len() - 1 {
        assert(s.update(i, v).drop_last() =~= s.drop_last());
    } else {
        assert(s.update(i, v).drop_last() =~= s.drop_last().update(i, v));
        lemma_sum_int_update(s.drop_last(), i, v);
    }
}

pub proof fn lemma_sum_int_constant_zero(n: nat)
    ensures
        sum_int(Seq::new(n, |i: int| 0int)) == 0,
    decreases n,
{
    if n > 0 {
        assert(Seq::new(n, |i: int| 0int).drop_last() =~= Seq::new((n - 1) as nat, |i: int| 0int));
        lemma_sum_int_constant_zero((n - 1) as nat);
    }
}

/// In a sequence with no negative entries, each entry is at most the sum.
pub proof fn lemma_sum_int_nonneg_ge_elem(s: Seq<int>, k: int)
    requires
        0 <= k < s.len(),
        forall|i: int| 0 <= i < s.len() ==> s[i] >= 0,
    ensures
        sum_int(s) >= s[k],
        sum_int(s) >= 0,
    decreases s.len(),
{
    lemma_sum_int_nonneg(s.drop_last());
    if k < s.len() - 1 {
        lemma_sum_int_nonneg_ge_elem(s.drop_last(), k);
    }
}

pub proof fn lemma_sum_int_nonneg(s: Seq<int>)
    requires
        forall|i: int| 0 <= i < s.len() ==> s[i] >= 0,
    ensures
        sum_int(s) >= 0,
    decreases s.len(),
{
    if s.len() > 0 {
        lemma_sum_int_nonneg(s.drop_last());
    }
}

pub proof fn lemma_pos_sum_bounds(s: Seq<i64>)
    ensures
        0 <= pos_sum(s) <= s.len() * (i64::MAX as int),
        forall|k: int| 0 <= k < s.len() ==> pos(#[trigger] s[k]) <= pos_sum(s),
    decreases s.len(),
{
    if s.len() > 0 {
        lemma_pos_sum_bounds(s.drop_last());
        assert forall|k: int| 0 <= k < s.len() implies pos(#[trigger] s[k]) <= pos_sum(s) by {
            if k < s.len() - 1 {
                assert(s[k] == s.drop_last()[k]);
            }
        }
    }
}

pub proof fn lemma_take_succ<A>(s: Seq<A>, i: int)
    requires
        0 <= i < s.len(),
    ensures
        s.take(i + 1) =~= s.take(i).push(s[i]),
        s.take(i + 1).drop_last() =~= s.take(i),
{
}

pub proof fn lemma_sum_i64_zeros(s: Seq<i64>)
    requires
        forall|i: int| 0 <= i < s.len() ==> #[trigger] s[i] == 0,
    ensures
        sum_i64(s) == 0,
    decreases s.len(),
{
    if s.len() > 0 {
        lemma_sum_i64_zeros(s.drop_last());
        assert(as_ints(s).drop_last() =~= as_ints(s.drop_last()));
    }
}

} // verus!
