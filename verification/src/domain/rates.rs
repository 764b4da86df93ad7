//! Pricing the collateral: deciding one exchange rate out of what many feeds said.

use vstd::prelude::*;
use vstd::relations::sorted_by;
use super::rounding::{
    div_toward_zero, half_even, lemma_half_even_bounds, lemma_i64_product, round_half_even,
    trunc_div,
};

verus! {

/// Fixed-point scale for exchange rates: integers of hundred-millionths.
pub const RATE_SCALE: i64 = 100_000_000;

pub open spec fn derived_rate(usd_per_xlm: i64, php_per_usd: i64) -> i64 {
    trunc_div(usd_per_xlm * php_per_usd, 100_000_000) as i64
}

/// XLM/USD times USD/PHP gives PHP per XLM, all three scaled by `RATE_SCALE`.
pub fn derive_php_per_xlm(usd_per_xlm: i64, php_per_usd: i64) -> (r: i64)
    ensures
        r == derived_rate(usd_per_xlm, php_per_usd),
{
    proof {
        lemma_i64_product(usd_per_xlm as int, php_per_usd as int);
    }
    div_toward_zero(usd_per_xlm as i128 * php_per_usd as i128, 100_000_000) as i64
}

pub open spec fn centavos_of_rate(php_per_xlm: i64) -> i64 {
    half_even(php_per_xlm * 100, 100_000_000) as i64
}

/// A scaled PHP-per-XLM rate as the whole centavos the collateral rules
/// value against, rounded half to even.
pub fn scaled_to_centavos(php_per_xlm: i64) -> (r: i64)
    ensures
        r == centavos_of_rate(php_per_xlm),
        r == half_even(php_per_xlm * 100, 100_000_000),
{
    proof {
        lemma_half_even_bounds(php_per_xlm * 100, 100_000_000);
        assert(i64::MIN <= (php_per_xlm * 100) / 100_000_000 <= i64::MAX - 1) by (nonlinear_arith)
            requires
                i64::MIN <= php_per_xlm <= i64::MAX,
        ;
    }
    round_half_even(php_per_xlm as i128 * 100, 100_000_000)
}

pub open spec fn leq_i64() -> spec_fn(i64, i64) -> bool {
    |a: i64, b: i64| a <= b
}

/// The values in ascending order.
pub open spec fn ascending(values: Seq<i64>) -> Seq<i64> {
    values.sort_by(leq_i64())
}

/// The middle value of a non-empty set; an even count averages the two
/// middles, rounded half to even.
pub open spec fn median_of(values: Seq<i64>) -> i64 {
    let s = ascending(values);
    let mid = s.len() / 2;
    if s.len() % 2 == 1 {
        s[mid as int]
    } else {
        half_even(s[mid - 1] + s[mid as int], 2) as i64
    }
}

proof fn lemma_leq_total()
    ensures
        vstd::relations::total_ordering(leq_i64()),
{
}

fn sorted_copy(values: &[i64]) -> (r: Vec<i64>)
    ensures
        r@ == ascending(values@),
{
    let mut out: Vec<i64> = Vec::new();
    let n = values.len();
    let mut i: usize = 0;
    proof {
        assert(out@ =~= values@.take(0));
    }
    while i < n
        invariant
            i <= n,
            n == values@.len(),
            sorted_by(out@, leq_i64()),
            out@.to_multiset() == values@.take(i as int).to_multiset(),
            out@.len() == i,
        decreases n - i,
    {
        let v = values[i];
        let mut p: usize = 0;
        while p < out.len() && out[p] <= v
            invariant
                p <= out@.len(),
                forall|k: int| 0 <= k < p ==> out@[k] <= v,
            decreases out@.len() - p,
        {
            p = p + 1;
        }
        let ghost before = out@;
        proof {
            // everything from p on is above v
            assert forall|k: int| p <= k < before.len() implies v < before[k] by {
                if p < before.len() {
                    assert(v < before[p as int]);
                    if k > p {
                        assert(leq_i64()(before[p as int], before[k]));
                    }
                }
            }
        }
        out.insert(p, v);
        proof {
            vstd::seq_lib::to_multiset_insert(before, p as int, v);
            assert(values@.take(i + 1) =~= values@.take(i as int).push(v));
            vstd::seq_lib::to_multiset_build(values@.take(i as int), v);
            assert forall|a: int, b: int| 0 <= a < b < out@.len() implies #[trigger] leq_i64()(
                out@[a],
                out@[b],
            ) by {
                if a < p && b < p {
                    assert(leq_i64()(before[a], before[b]));
                } else if a < p && b == p {
                } else if a < p && b > p {
                    assert(out@[b] == before[b - 1]);
                } else if a == p {
                    assert(out@[b] == before[b - 1]);
                } else {
                    assert(out@[a] == before[a - 1] && out@[b] == before[b - 1]);
                    assert(leq_i64()(before[a - 1], before[b - 1]));
                }
            }
        }
        i = i + 1;
    }
    proof {
        assert(values@.take(n as int) =~= values@);
        lemma_leq_total();
        values@.lemma_sort_by_ensures(leq_i64());
        vstd::seq_lib::lemma_sorted_unique(out@, ascending(values@), leq_i64());
    }
    out
}

/// Middle value of a non-empty set; an even count averages the two middles
/// at the single rounding site. None for no values at all.
pub fn median(values: &[i64]) -> (r: Option<i64>)
    ensures
        values@.len() == 0 <==> r is None,
        r matches Some(m) ==> m == median_of(values@),
{
    if values.len() == 0 {
        return None;
    }
    let sorted = sorted_copy(values);
    proof {
        lemma_leq_total();
        values@.lemma_sort_by_ensures(leq_i64());
        vstd::seq_lib::to_multiset_len(values@);
        vstd::seq_lib::to_multiset_len(sorted@);
    }
    let mid = sorted.len() / 2;
    if sorted.len() % 2 == 1 {
        Some(sorted[mid])
    } else {
        let a = sorted[mid - 1];
        let b = sorted[mid];
        proof {
            lemma_half_even_bounds(a + b, 2);
        }
        Some(round_half_even(a as i128 + b as i128, 2))
    }
}

/// The median does not depend on the order the values come in: any
/// reordering of them (the same values, each as often) sorts to the same
/// sequence, so it has as many values and the same median.
pub proof fn law_median_ignores_order(a: Seq<i64>, b: Seq<i64>)
    requires
        a.to_multiset() == b.to_multiset(),
    ensures
        ascending(a) == ascending(b),
        a.len() == b.len(),
        median_of(a) == median_of(b),
{
    lemma_leq_total();
    a.lemma_sort_by_ensures(leq_i64());
    b.lemma_sort_by_ensures(leq_i64());
    vstd::seq_lib::lemma_sorted_unique(ascending(a), ascending(b), leq_i64());
    vstd::seq_lib::to_multiset_len(a);
    vstd::seq_lib::to_multiset_len(b);
}

/// A quote counts when it sits within `max_deviation_bps` of the first median.
pub open spec fn within_band(q: i64, center: i64, max_deviation_bps: i64) -> bool {
    let drift = if q - center >= 0 {
        q - center
    } else {
        center - q
    };
    drift * 10_000 <= center * max_deviation_bps
}

pub open spec fn band_filter(center: i64, max_deviation_bps: i64) -> spec_fn(i64) -> bool {
    |q: i64| within_band(q, center, max_deviation_bps)
}

/// The agreed rate: take the median, drop every quote further than the band
/// from it, and take the median of what is left, provided at least
/// `min_sources` (at least one) quotes were read and still stand.
pub open spec fn agreed_rate(quotes: Seq<i64>, min_sources: usize, max_deviation_bps: i64) -> Option<
    i64,
> {
    let m = if min_sources > 1 {
        min_sources as int
    } else {
        1
    };
    if quotes.len() < m {
        None
    } else {
        let kept = quotes.filter(band_filter(median_of(quotes), max_deviation_bps));
        if kept.len() < m {
            None
        } else {
            Some(median_of(kept))
        }
    }
}

/// The agreed rate, or none, which is a refusal to price rather than a fallback.
pub fn agree_on_rate(quotes: &[i64], min_sources: usize, max_deviation_bps: i64) -> (r: Option<i64>)
    ensures
        r == agreed_rate(quotes@, min_sources, max_deviation_bps),
{
    let min_sources = if min_sources > 1 {
        min_sources
    } else {
        1
    };
    if quotes.len() < min_sources {
        return None;
    }
    let first = match median(quotes) {
        Some(m) => m,
        None => {
            return None;
        },
    };
    let ghost pred = band_filter(first, max_deviation_bps);
    let mut kept: Vec<i64> = Vec::new();
    let n = quotes.len();
    let mut i: usize = 0;
    while i < n
        invariant
            i <= n,
            n == quotes@.len(),
            pred == band_filter(first, max_deviation_bps),
            kept@ == quotes@.take(i as int).filter(pred),
        decreases n - i,
    {
        let q = quotes[i];
        let diff = q as i128 - first as i128;
        let drift = if diff >= 0 {
            diff
        } else {
            -diff
        };
        proof {
            lemma_i64_product(first as int, max_deviation_bps as int);
            assert(drift * 10_000 <= 0x2_0000_0000_0000_0000 * 10_000) by (nonlinear_arith)
                requires
                    0 <= drift <= 0x2_0000_0000_0000_0000,
            ;
            assert(quotes@.take(i + 1) =~= quotes@.take(i as int).push(q));
            quotes@.take(i as int).lemma_filter_push(q, pred);
        }
        if drift * 10_000 <= first as i128 * max_deviation_bps as i128 {
            kept.push(q);
        }
        i = i + 1;
    }
    proof {
        assert(quotes@.take(n as int) =~= quotes@);
    }
    if kept.len() < min_sources {
        return None;
    }
    median(&kept)
}

} // verus!
