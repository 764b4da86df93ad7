//! Paying a sum of money down a list of amounts owed, strictly in order:
//! each is paid in full before the next gets anything, and whatever is left
//! once all are paid is returned as left over. Repayments, withdrawals and
//! default settlements all share out money this way.

use vstd::prelude::*;

verus! {

/// What an entry can take: its amount, or nothing when that is not positive.
pub open spec fn room(c: int) -> int {
    if c > 0 {
        c
    } else {
        0
    }
}

/// The room of the first `i` entries together.
pub open spec fn room_before(caps: Seq<i64>, i: int) -> int
    decreases i,
{
    if i <= 0 {
        0
    } else {
        room_before(caps, i - 1) + room(caps[i - 1] as int)
    }
}

/// What entry `i` receives out of `money`: whatever the entries before it
/// left, up to its own room.
pub open spec fn share(caps: Seq<i64>, money: int, i: int) -> int {
    let avail = money - room_before(caps, i);
    if avail <= 0 {
        0
    } else if avail < room(caps[i] as int) {
        avail
    } else {
        room(caps[i] as int)
    }
}

/// What remains once every entry has taken its room.
pub open spec fn leftover(caps: Seq<i64>, money: int) -> int {
    let a = money - room_before(caps, caps.len() as int);
    if a > 0 {
        a
    } else {
        0
    }
}

/// What the first `i` entries receive together.
pub open spec fn shares_before(caps: Seq<i64>, money: int, i: int) -> int
    decreases i,
{
    if i <= 0 {
        0
    } else {
        shares_before(caps, money, i - 1) + share(caps, money, i - 1)
    }
}

pub proof fn lemma_room_before_monotone(caps: Seq<i64>, i: int, j: int)
    requires
        0 <= i <= j <= caps.len(),
    ensures
        room_before(caps, i) <= room_before(caps, j),
    decreases j - i,
{
    if i < j {
        lemma_room_before_monotone(caps, i, j - 1);
    }
}

/// Paid so far is the money or the room so far, whichever is smaller.
pub proof fn lemma_shares_before(caps: Seq<i64>, money: int, i: int)
    requires
        money >= 0,
        0 <= i <= caps.len(),
    ensures
        shares_before(caps, money, i) == (if money < room_before(caps, i) {
            money
        } else {
            room_before(caps, i)
        }),
    decreases i,
{
    if i > 0 {
        lemma_shares_before(caps, money, i - 1);
        lemma_room_before_monotone(caps, i - 1, i);
    }
}

/// Nothing is made or lost: the shares and the left over add up to the money.
pub proof fn lemma_waterfall_conserves(caps: Seq<i64>, money: int)
    requires
        money >= 0,
    ensures
        shares_before(caps, money, caps.len() as int) + leftover(caps, money) == money,
        0 <= shares_before(caps, money, caps.len() as int) <= money,
        0 <= leftover(caps, money) <= money,
{
    lemma_shares_before(caps, money, caps.len() as int);
    lemma_room_before_monotone(caps, 0, caps.len() as int);
}

/// Strict order: an entry left short means every later entry got nothing.
pub proof fn lemma_waterfall_in_order(caps: Seq<i64>, money: int, i: int, j: int)
    requires
        0 <= i < j < caps.len(),
        share(caps, money, i) < room(caps[i] as int),
    ensures
        share(caps, money, j) == 0,
{
    lemma_room_before_monotone(caps, i + 1, j);
}

/// Money left over means every entry was paid in full.
pub proof fn lemma_waterfall_full(caps: Seq<i64>, money: int, i: int)
    requires
        0 <= i < caps.len(),
        leftover(caps, money) > 0,
    ensures
        share(caps, money, i) == room(caps[i] as int),
{
    lemma_room_before_monotone(caps, i + 1, caps.len() as int);
}

/// Each share is between nothing and the entry's room.
pub proof fn lemma_share_bounds(caps: Seq<i64>, money: int, i: int)
    requires
        0 <= i < caps.len(),
    ensures
        0 <= share(caps, money, i) <= room(caps[i] as int),
{
}

/// Shares `money` out down `caps` in order. Returns each entry's share and
/// what is left over.
pub fn waterfall(caps: &[i64], money: i64) -> (r: (Vec<i64>, i64))
    requires
        money >= 0,
    ensures
        r.0@.len() == caps@.len(),
        forall|k: int| 0 <= k < caps@.len() ==> #[trigger] r.0@[k] == share(caps@, money as int, k),
        r.1 == leftover(caps@, money as int),
{
    let n = caps.len();
    let mut shares: Vec<i64> = Vec::new();
    let mut left: i64 = money;
    let mut i: usize = 0;
    while i < n
        invariant
            i <= n,
            n == caps@.len(),
            money >= 0,
            shares@.len() == i,
            forall|k: int| 0 <= k < i ==> #[trigger] shares@[k] == share(caps@, money as int, k),
            left == (if money - room_before(caps@, i as int) > 0 {
                money - room_before(caps@, i as int)
            } else {
                0
            }),
        decreases n - i,
    {
        let c = caps[i];
        let r: i64 = if c > 0 {
            c
        } else {
            0
        };
        let take: i64 = if left < r {
            left
        } else {
            r
        };
        shares.push(take);
        left = left - take;
        i = i + 1;
    }
    (shares, left)
}

} // verus!
