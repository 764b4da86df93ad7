//! Repayment schedules and the funding that unlocks as they are paid.

use vstd::prelude::*;
use super::loans::MONTH_SECS;
use super::rounding::{
    half_even, lemma_half_even_monotone, lemma_i64_product, lemma_trunc_div_bounds,
    round_half_even, trunc_div,
};
use super::sums::{as_ints, lemma_as_ints_push, lemma_sum_int_push, sum_int};

verus! {

pub struct Installment {
    pub installment: i16,
    pub due_at: i64,
    pub principal_due: i64,
    pub interest_due: i64,
}

/// The equal principal slice every installment but the last repays.
pub open spec fn slice_of(principal: i64, term_months: i16) -> int {
    trunc_div(principal as int, term_months as int)
}

/// What is still owed when installment `i + 1` falls due.
pub open spec fn outstanding_at(principal: i64, term_months: i16, i: int) -> int {
    principal - i * slice_of(principal, term_months)
}

pub open spec fn principal_due_at(principal: i64, term_months: i16, i: int) -> int {
    if i == term_months - 1 {
        outstanding_at(principal, term_months, i)
    } else {
        slice_of(principal, term_months)
    }
}

pub open spec fn interest_due_at(principal: i64, rate_bps: i32, term_months: i16, i: int) -> i64 {
    half_even(outstanding_at(principal, term_months, i) * rate_bps, 10_000) as i64
}

proof fn lemma_outstanding_range(principal: i64, term_months: i16, i: int)
    requires
        term_months >= 1,
        0 <= i <= term_months,
    ensures
        principal >= 0 ==> 0 <= outstanding_at(principal, term_months, i) <= principal,
        principal < 0 ==> principal <= outstanding_at(principal, term_months, i) <= 0,
        i <= term_months - 1 ==> (principal >= 0 ==> outstanding_at(principal, term_months, i)
            >= slice_of(principal, term_months)),
{
    let n = term_months as int;
    let s = slice_of(principal, term_months);
    lemma_trunc_div_bounds(principal as int, n);
    if principal >= 0 {
        assert(s * n <= principal) by (nonlinear_arith)
            requires
                s == (principal as int) / n,
                n > 0,
                principal >= 0,
        ;
        assert(0 <= i * s <= principal) by (nonlinear_arith)
            requires
                0 <= i <= n,
                s >= 0,
                s * n <= principal,
        ;
        if i <= n - 1 {
            assert((i + 1) * s <= principal) by (nonlinear_arith)
                requires
                    0 <= i + 1 <= n,
                    s >= 0,
                    s * n <= principal,
            ;
            assert((i + 1) * s == i * s + s) by (nonlinear_arith);
        }
    } else {
        let m = -(principal as int);
        assert((m / n) * n <= m) by (nonlinear_arith)
            requires
                n > 0,
                m > 0,
        ;
        assert(s == -(m / n));
        assert(0 <= i * (m / n) <= m) by (nonlinear_arith)
            requires
                0 <= i <= n,
                m / n >= 0,
                (m / n) * n <= m,
        ;
        assert(i * s == -(i * (m / n))) by (nonlinear_arith)
            requires
                s == -(m / n),
        ;
    }
}

/// Reducing-balance monthly schedule: interest each month is the balance
/// still owed times the monthly rate, rounded half to even; principal is
/// equal slices with the last installment absorbing the remainder, so the
/// principal due adds up to the principal exactly.
pub fn build_schedule(principal: i64, rate_bps: i32, term_months: i16, start_at: i64) -> (rows: Vec<
    Installment,
>)
    requires
        term_months >= 1,
        start_at + MONTH_SECS * term_months <= i64::MAX,
    ensures
        rows@.len() == term_months,
        forall|i: int|
            0 <= i < term_months ==> {
                &&& #[trigger] rows@[i].installment == i + 1
                &&& rows@[i].due_at == start_at + MONTH_SECS * (i + 1)
                &&& rows@[i].principal_due == principal_due_at(principal, term_months, i)
                &&& rows@[i].interest_due == interest_due_at(principal, rate_bps, term_months, i)
            },
        sum_int(Seq::new(term_months as nat, |i: int| rows@[i].principal_due as int)) == principal,
        principal >= 0 && rate_bps >= 0 && principal * rate_bps <= 10_000 * i64::MAX ==> forall|
            i: int,
            j: int,
        |
            0 <= i <= j < term_months ==> #[trigger] rows@[i].interest_due >= #[trigger] rows@[j].interest_due,
{
    let n = term_months as i64;
    let slice = principal / n;
    proof {
        lemma_trunc_div_bounds(principal as int, n as int);
        assert(slice == slice_of(principal, term_months));
    }
    let mut outstanding = principal;
    let mut rows: Vec<Installment> = Vec::new();
    let mut k: i64 = 0;
    let ghost mut dues: Seq<int> = Seq::empty();
    while k < n
        invariant
            0 <= k <= n,
            term_months >= 1,
            n == term_months,
            slice == slice_of(principal, term_months),
            start_at + MONTH_SECS * term_months <= i64::MAX,
            k < n ==> outstanding == outstanding_at(principal, term_months, k as int),
            k == n ==> outstanding == 0,
            rows@.len() == k,
            dues.len() == k,
            forall|j: int| 0 <= j < k ==> #[trigger] dues[j] == rows@[j].principal_due,
            sum_int(dues) == principal - outstanding,
            forall|j: int|
                0 <= j < k ==> {
                    &&& #[trigger] rows@[j].installment == j + 1
                    &&& rows@[j].due_at == start_at + MONTH_SECS * (j + 1)
                    &&& rows@[j].principal_due == principal_due_at(principal, term_months, j)
                    &&& rows@[j].interest_due == interest_due_at(principal, rate_bps, term_months, j)
                },
        decreases n - k,
    {
        proof {
            lemma_outstanding_range(principal, term_months, k as int);
            lemma_outstanding_range(principal, term_months, k + 1);
        }
        let principal_due = if k == n - 1 {
            outstanding
        } else {
            slice
        };
        proof {
            lemma_i64_product(outstanding as int, rate_bps as int);
            assert(MONTH_SECS * (k + 1) <= MONTH_SECS * term_months) by (nonlinear_arith)
                requires
                    k + 1 <= term_months,
            ;
        }
        let interest_due = round_half_even(outstanding as i128 * rate_bps as i128, 10_000);
        let due_at = start_at + MONTH_SECS * (k + 1);
        rows.push(Installment { installment: (k + 1) as i16, due_at, principal_due, interest_due });
        proof {
            lemma_sum_int_push(dues, principal_due as int);
            dues = dues.push(principal_due as int);
            assert(outstanding_at(principal, term_months, k + 1) == outstanding_at(
                principal,
                term_months,
                k as int,
            ) - slice) by (nonlinear_arith)
                requires
                    outstanding_at(principal, term_months, k as int) == principal - k * slice,
                    outstanding_at(principal, term_months, k + 1) == principal - (k + 1) * slice,
            ;
        }
        outstanding = outstanding - principal_due;
        k = k + 1;
    }
    proof {
        assert(k == n);
        assert forall|i: int| 0 <= i < term_months implies {
            &&& #[trigger] rows@[i].installment == i + 1
            &&& rows@[i].due_at == start_at + MONTH_SECS * (i + 1)
            &&& rows@[i].principal_due == principal_due_at(principal, term_months, i)
            &&& rows@[i].interest_due == interest_due_at(principal, rate_bps, term_months, i)
        } by {
            assert(0 <= i < k);
        }
        assert(Seq::new(term_months as nat, |k: int| rows@[k].principal_due as int) =~= dues);
        assert(outstanding == 0);
        if principal >= 0 && rate_bps >= 0 && principal * rate_bps <= 10_000 * i64::MAX {
            assert forall|a: int, b: int|
                0 <= a <= b < term_months implies #[trigger] rows@[a].interest_due
                    >= #[trigger] rows@[b].interest_due by {
                assert(rows@[a].installment == a + 1);
                assert(rows@[b].installment == b + 1);
                lemma_outstanding_range(principal, term_months, a);
                lemma_outstanding_range(principal, term_months, b);
                let oa = outstanding_at(principal, term_months, a);
                let ob = outstanding_at(principal, term_months, b);
                assert(ob <= oa) by (nonlinear_arith)
                    requires
                        oa == principal - a * slice,
                        ob == principal - b * slice,
                        a <= b,
                        slice >= 0,
                ;
                assert(ob * rate_bps <= oa * rate_bps) by (nonlinear_arith)
                    requires
                        ob <= oa,
                        rate_bps >= 0,
                ;
                lemma_half_even_monotone(ob * rate_bps, oa * rate_bps, 10_000);
                lemma_i64_product(oa, rate_bps as int);
                lemma_i64_product(ob, rate_bps as int);
                assert(0 <= ob * rate_bps) by (nonlinear_arith)
                    requires
                        ob >= 0,
                        rate_bps >= 0,
                ;
                assert(oa * rate_bps <= principal * rate_bps) by (nonlinear_arith)
                    requires
                        0 <= oa <= principal,
                        0 <= rate_bps,
                ;
                assert(half_even(oa * rate_bps, 10_000) <= i64::MAX) by {
                    super::rounding::lemma_half_even_within(
                        oa * rate_bps,
                        10_000,
                        i64::MAX as int,
                    );
                }
                super::rounding::lemma_half_even_within(ob * rate_bps, 10_000, i64::MAX as int);
            }
        }
    }
    rows
}

pub open spec fn funding_release(locked: i64, principal_paid: i64, outstanding_before: i64) -> i64 {
    if locked <= 0 || principal_paid <= 0 {
        0
    } else if principal_paid >= outstanding_before {
        locked
    } else {
        let r = half_even(locked * principal_paid, outstanding_before as int) as i64;
        if r < 0 {
            0
        } else if r > locked {
            locked
        } else {
            r
        }
    }
}

/// How much of a loan's locked funding to unlock when `principal_paid` of it
/// comes back: the same fraction of what is locked as the payment is of what
/// was owed, rounded half to even and held to `0..=locked`. The final payment
/// unlocks everything.
pub fn funding_to_release(locked: i64, principal_paid: i64, outstanding_before: i64) -> (r: i64)
    ensures
        r == funding_release(locked, principal_paid, outstanding_before),
        0 <= r,
        locked > 0 ==> r <= locked,
        locked <= 0 ==> r == 0,
        locked > 0 && principal_paid > 0 && principal_paid >= outstanding_before ==> r == locked,
{
    if locked <= 0 || principal_paid <= 0 {
        return 0;
    }
    if principal_paid >= outstanding_before {
        return locked;
    }
    proof {
        lemma_i64_product(locked as int, principal_paid as int);
    }
    let r = round_half_even(locked as i128 * principal_paid as i128, outstanding_before as i128);
    if r < 0 {
        0
    } else if r > locked {
        locked
    } else {
        r
    }
}

/// Walking a loan down to nothing in any sequence of payments releases all
/// of its locked funding: no centavo is left stranded.
pub proof fn lemma_funding_fully_released(locked: i64, payments: Seq<i64>, outstanding: i64)
    requires
        payments.len() > 0,
        forall|k: int| 0 <= k < payments.len() ==> #[trigger] payments[k] > 0,
        outstanding >= 0,
        sum_int(as_ints(payments)) == outstanding,
        locked >= 0,
    ensures
        locked_after(locked, payments, outstanding) == 0,
    decreases payments.len(),
{
    if payments.len() > 0 {
        let p = payments[0];
        let rest = payments.drop_first();
        lemma_sum_first(payments);
        let released = funding_release(locked, p, outstanding);
        lemma_sum_nonneg_pos(rest);
        if rest.len() == 0 {
            assert(as_ints(rest) =~= Seq::<int>::empty());
            assert(p == outstanding);
            assert(locked_after(locked, payments, outstanding) == locked_after(
                (locked - released) as i64,
                rest,
                (outstanding - p) as i64,
            ));
        } else {
            lemma_funding_fully_released((locked - released) as i64, rest, (outstanding - p) as i64);
        }
    }
}

/// What stays locked after each payment in turn releases its share.
pub open spec fn locked_after(locked: i64, payments: Seq<i64>, outstanding: i64) -> int
    decreases payments.len(),
{
    if payments.len() == 0 {
        locked as int
    } else {
        let released = funding_release(locked, payments[0], outstanding);
        locked_after(
            (locked - released) as i64,
            payments.drop_first(),
            (outstanding - payments[0]) as i64,
        )
    }
}

proof fn lemma_sum_first(s: Seq<i64>)
    requires
        s.len() > 0,
    ensures
        sum_int(as_ints(s)) == s[0] + sum_int(as_ints(s.drop_first())),
    decreases s.len(),
{
    if s.len() == 1 {
        assert(as_ints(s).drop_last() =~= Seq::<int>::empty());
        assert(as_ints(s.drop_first()) =~= Seq::<int>::empty());
    } else {
        lemma_sum_first(s.drop_last());
        assert(as_ints(s).drop_last() =~= as_ints(s.drop_last()));
        assert(s.drop_last().drop_first() =~= s.drop_first().drop_last());
        assert(as_ints(s.drop_first()).drop_last() =~= as_ints(s.drop_first().drop_last()));
    }
}

proof fn lemma_sum_nonneg_pos(s: Seq<i64>)
    requires
        forall|k: int| 0 <= k < s.len() ==> #[trigger] s[k] > 0,
    ensures
        sum_int(as_ints(s)) >= s.len(),
    decreases s.len(),
{
    if s.len() > 0 {
        lemma_sum_nonneg_pos(s.drop_last());
        assert(as_ints(s).drop_last() =~= as_ints(s.drop_last()));
    }
}

/// What the pool's members must fund when a loan disburses: the principal
/// less whatever the borrower backs with their own locked deposit.
pub fn pool_funded_amount(principal: i64, own_deposit_backing: i64) -> (r: i64)
    requires
        principal - (if own_deposit_backing > 0 {
            own_deposit_backing as int
        } else {
            0
        }) >= i64::MIN,
    ensures
        r == if principal - (if own_deposit_backing > 0 {
            own_deposit_backing as int
        } else {
            0
        }) > 0 {
            principal - (if own_deposit_backing > 0 {
                own_deposit_backing as int
            } else {
                0
            })
        } else {
            0
        },
{
    let own: i64 = if own_deposit_backing > 0 {
        own_deposit_backing
    } else {
        0
    };
    let d = principal - own;
    if d > 0 {
        d
    } else {
        0
    }
}

/// One schedule row as a repayment reads it:
/// `(installment, interest_due, interest_paid, principal_due, principal_paid)`.
pub type ScheduleRow = (i16, i64, i64, i64, i64);

/// Everything still owed on a row.
pub open spec fn row_owed(row: ScheduleRow) -> int {
    (if row.1 - row.2 > 0 {
        row.1 - row.2
    } else {
        0
    }) + (if row.3 - row.4 > 0 {
        row.3 - row.4
    } else {
        0
    })
}

pub open spec fn row_in_range(row: ScheduleRow) -> bool {
    &&& i64::MIN <= row.1 - row.2 <= i64::MAX
    &&& i64::MIN <= row.3 - row.4 <= i64::MAX
    &&& row_owed(row) <= i64::MAX
}

/// The one amount a repayment may be: everything still owed on the earliest
/// installment that isn't fully paid, with that installment's number; none
/// when every installment is settled.
pub fn next_installment_due(rows: &[ScheduleRow]) -> (r: Option<(i16, i64)>)
    requires
        forall|i: int| 0 <= i < rows@.len() ==> row_in_range(#[trigger] rows@[i]),
    ensures
        r is None <==> forall|i: int| 0 <= i < rows@.len() ==> row_owed(#[trigger] rows@[i]) <= 0,
        r matches Some(due) ==> exists|i: int|
            0 <= i < rows@.len() && row_owed(rows@[i]) > 0 && due.0 == rows@[i].0 && due.1
                == row_owed(rows@[i]) && forall|j: int|
                0 <= j < i ==> row_owed(#[trigger] rows@[j]) <= 0,
{
    let n = rows.len();
    let mut i: usize = 0;
    while i < n
        invariant
            i <= n,
            n == rows@.len(),
            forall|j: int| 0 <= j < rows@.len() ==> row_in_range(#[trigger] rows@[j]),
            forall|j: int| 0 <= j < i ==> row_owed(#[trigger] rows@[j]) <= 0,
        decreases n - i,
    {
        let row = rows[i];
        assert(row_in_range(rows@[i as int]));
        let interest_left = row.1 - row.2;
        let principal_left = row.3 - row.4;
        let a: i64 = if interest_left > 0 {
            interest_left
        } else {
            0
        };
        let b: i64 = if principal_left > 0 {
            principal_left
        } else {
            0
        };
        let owed = a + b;
        if owed > 0 {
            return Some((row.0, owed));
        }
        i = i + 1;
    }
    None
}

} // verus!
