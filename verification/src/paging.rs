//! Paged lists: which page a request lands on, where it starts, and how many
//! pages there are.

use vstd::prelude::*;

verus! {

/// The page a request asks for when it names none.
pub fn default_page() -> (r: i64)
    ensures
        r == 1,
{
    1
}

/// A page number read as "at least the first page", and the row it starts at.
pub open spec fn window(page: int, size: int) -> (int, int) {
    let p = if page < 1 {
        1
    } else {
        page
    };
    (p, (p - 1) * size)
}

/// Pages below the first read as the first; the offset is where that page
/// starts.
pub fn page_window(page: i64, size: i64) -> (r: (i64, i64))
    requires
        size >= 0,
        page <= 1 || (page - 1) * size <= i64::MAX,
    ensures
        r.0 == window(page as int, size as int).0,
        r.1 == window(page as int, size as int).1,
{
    let p = if page < 1 {
        1
    } else {
        page
    };
    proof {
        if p > 1 {
            assert(0 <= (p - 1) * size) by (nonlinear_arith)
                requires
                    p > 1,
                    size >= 0,
            ;
        }
    }
    (p, (p - 1) * size)
}

/// The public list keeps pages between the first and the millionth.
pub fn public_page_window(page: i64, size: i64) -> (r: (i64, i64))
    requires
        0 <= size <= 1_000_000,
    ensures
        r.0 == (if page < 1 {
            1
        } else if page > 1_000_000 {
            1_000_000
        } else {
            page as int
        }),
        r.1 == (r.0 - 1) * size,
{
    let p = if page < 1 {
        1
    } else if page > 1_000_000 {
        1_000_000
    } else {
        page
    };
    assert(0 <= (p - 1) * size <= 1_000_000 * 1_000_000) by (nonlinear_arith)
        requires
            1 <= p <= 1_000_000,
            0 <= size <= 1_000_000,
    ;
    (p, (p - 1) * size)
}

/// How many pages `total` rows fill: at least one, even when there are none.
pub open spec fn pages_for(total: int, size: int) -> int {
    if total == 0 {
        1
    } else {
        (total + size - 1) / size
    }
}

pub fn total_pages(total: i64, size: i64) -> (r: i64)
    requires
        size > 0,
        0 <= total <= i64::MAX - size,
    ensures
        r == pages_for(total as int, size as int),
        total > 0 ==> (r - 1) * size < total <= r * size,
{
    let r = if total == 0 {
        1
    } else {
        (total + size - 1) / size
    };
    proof {
        if total > 0 {
            let q = (total + size - 1) as int / size as int;
            assert((q - 1) * size < total <= q * size) by (nonlinear_arith)
                requires
                    size > 0,
                    total > 0,
                    q == (total + size - 1) as int / size as int,
            ;
        }
    }
    r
}

/// A request for one page of the identity verification queue.
#[derive(Clone, Copy, Debug)]
pub struct PendingRequest {
    pub page: i64,
}

/// A request for one page of a member's deposits.
#[derive(Clone, Copy, Debug)]
pub struct DepositsPageRequest {
    pub page: i64,
}

/// A request for one page of a member's loan history.
#[derive(Clone, Copy, Debug)]
pub struct HistoryRequest {
    pub page: i64,
}

/// A request for one page of a loan's payments.
#[derive(Clone, Copy, Debug)]
pub struct PaymentsRequest {
    pub page: i64,
}

/// A member's repayments summed over all time, not just the page on screen.
#[derive(Clone, Copy, Debug, PartialEq, Eq)]
pub struct PaymentTotals {
    pub amount_received: i64,
    pub interest_paid: i64,
    pub principal_paid: i64,
}

/// A request for one page of a member's transactions.
#[derive(Clone, Copy, Debug)]
pub struct TransactionsRequest {
    pub page: i64,
}

/// A request for one page of the admin loan list; `filter` is `open`,
/// `defaulted`, or anything else for all loans.
#[derive(Clone, Debug)]
pub struct AdminLoansRequest {
    pub page: i64,
    pub filter: String,
}

/// A request for one page of booked interest, narrowed to members whose
/// username contains `search`.
#[derive(Clone, Debug)]
pub struct AdminInterestRequest {
    pub page: i64,
    pub search: String,
}

} // verus!
