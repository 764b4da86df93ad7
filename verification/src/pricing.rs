//! The XLM to PHP rate the collateral rules value against, agreed out of
//! several independent public feeds. Reading the feeds, caching and recording
//! the answer are the application's business; deciding one number out of
//! what the feeds said, and who may act on it, is here.

use vstd::prelude::*;
use vstd::string::StringExecFns;
use crate::domain::rates::{
    agree_on_rate, agreed_rate, centavos_of_rate, derive_php_per_xlm, derived_rate, median,
    median_of, scaled_to_centavos,
};
use crate::domain::rounding::{div_toward_zero, trunc_div};
use crate::text::{decimal, push_decimal};
use crate::Refusal;

verus! {

/// An agreed quote is reused without re-asking the feeds for this long.
pub const FRESH_SECS: i64 = 60;
/// Past this age a quote can no longer price a loan.
pub const MAX_AGE_SECS: i64 = 900;
/// Independent feeds that must still agree after outliers are dropped.
pub const MIN_SOURCES: usize = 2;
/// How far a feed may sit from the median and still count: 5%.
pub const MAX_DEVIATION_BPS: i64 = 500;

/// One feed's answer, scaled by `RATE_SCALE`.
#[derive(Clone, Debug)]
pub struct SourceRate {
    pub name: String,
    pub scaled: i64,
}

/// A feed that did not answer usably.
#[derive(Clone, Debug)]
pub struct Failure {
    pub name: String,
    pub reason: String,
}

/// One round of answers from the feeds.
#[derive(Clone, Debug)]
pub struct Reading {
    /// Feeds quoting XLM/PHP directly.
    pub direct_php: Vec<SourceRate>,
    /// Crypto venues quoting XLM/USD.
    pub usd_per_xlm: Vec<SourceRate>,
    /// Fiat feeds quoting USD/PHP.
    pub php_per_usd: Vec<SourceRate>,
    pub failures: Vec<Failure>,
}

/// One feed's contribution to an agreed price, kept for the record.
#[derive(Clone, Debug)]
pub struct PricedSource {
    pub name: String,
    /// What this feed alone implied, in whole centavos per XLM.
    pub centavos_per_xlm: i64,
    /// "XLM/PHP" (quoted directly) or "XLM/USD x USD/PHP" (derived).
    pub leg: &'static str,
    /// Distance from the agreed rate, in basis points.
    pub deviation_bps: i64,
    pub used: bool,
}

/// A feed that did not answer usably, recorded rather than dropped.
#[derive(Clone, Debug)]
pub struct PricedFailure {
    pub name: String,
    pub reason: String,
}

#[derive(Clone, Debug)]
pub struct Priced {
    /// Whole centavos one XLM is worth.
    pub centavos_per_xlm: i64,
    /// Unix seconds the feeds were read.
    pub as_of: i64,
    /// Plain-language description of how the number was reached.
    pub method: String,
    /// The USD/PHP leg, in centavos per USD, when one was used.
    pub usd_php_centavos: Option<i64>,
    /// The XLM/USD leg alone, scaled 1e8.
    pub usd_per_xlm_e8: Option<i64>,
    pub sources: Vec<PricedSource>,
    pub failures: Vec<PricedFailure>,
    /// False when this is the last rate on record rather than a live agreement.
    pub live: bool,
}

impl Priced {
    /// The two legs the vault contract is handed with a lock: both or neither.
    pub fn checkable_legs(&self) -> (r: Option<(i64, i64)>)
        ensures
            r is Some <==> self.usd_per_xlm_e8 is Some && self.usd_php_centavos is Some,
            r matches Some(legs) ==> legs == (self.usd_per_xlm_e8->0, self.usd_php_centavos->0),
    {
        match (self.usd_per_xlm_e8, self.usd_php_centavos) {
            (Some(a), Some(b)) => Some((a, b)),
            _ => None,
        }
    }
}

pub open spec fn scaled_of(s: Seq<SourceRate>) -> Seq<i64> {
    Seq::new(s.len(), |i: int| s[i].scaled)
}

/// Every candidate quote in centavos: the direct feeds first, then each
/// dollar quote crossed through the median fiat rate when one answered.
pub open spec fn candidate_quotes(r: Reading) -> Seq<i64> {
    let direct = Seq::new(r.direct_php@.len(), |i: int| centavos_of_rate(r.direct_php@[i].scaled));
    if r.php_per_usd@.len() == 0 {
        direct
    } else {
        let fx = median_of(scaled_of(r.php_per_usd@));
        direct + Seq::new(
            r.usd_per_xlm@.len(),
            |i: int| centavos_of_rate(derived_rate(r.usd_per_xlm@[i].scaled, fx)),
        )
    }
}

/// The feed name behind each candidate quote.
pub open spec fn candidate_names(r: Reading) -> Seq<Seq<char>> {
    let direct = Seq::new(r.direct_php@.len(), |i: int| r.direct_php@[i].name@);
    if r.php_per_usd@.len() == 0 {
        direct
    } else {
        direct + Seq::new(r.usd_per_xlm@.len(), |i: int| r.usd_per_xlm@[i].name@)
    }
}

/// How far a quote sits from the agreed rate, in basis points.
pub open spec fn deviation_of(centavos: i64, agreed: i64) -> i64 {
    let diff = if centavos - agreed >= 0 {
        centavos - agreed
    } else {
        agreed - centavos
    };
    trunc_div(diff * 10_000, if agreed > 1 {
        agreed as int
    } else {
        1
    }) as i64
}

pub open spec fn count_used(s: Seq<PricedSource>) -> int
    decreases s.len(),
{
    if s.len() == 0 {
        0
    } else {
        count_used(s.drop_last()) + if s.last().used {
            1int
        } else {
            0int
        }
    }
}

/// "median of N agreeing feed(s) out of M read".
pub open spec fn method_text(used: nat, read: nat) -> Seq<char> {
    "median of "@ + decimal(used) + " agreeing feed"@ + (if used == 1 {
        ""@
    } else {
        "s"@
    }) + " out of "@ + decimal(read) + " read"@
}

/// What a round of feed answers agrees on: the candidate quotes, the agreed
/// rate, and per feed how far it sat from that rate.
pub open spec fn aggregate_ok(reading: Reading, as_of: i64, p: Priced) -> bool {
    let quotes = candidate_quotes(reading);
    let agreed = agreed_rate(quotes, 2, 500)->0;
    let n_direct = reading.direct_php@.len();
    &&& p.centavos_per_xlm == agreed
    &&& p.as_of == as_of
    &&& p.live
    &&& p.usd_php_centavos == if reading.php_per_usd@.len() == 0 {
        None
    } else {
        Some(centavos_of_rate(median_of(scaled_of(reading.php_per_usd@))))
    }
    &&& p.usd_per_xlm_e8 == if reading.usd_per_xlm@.len() == 0 {
        None
    } else {
        Some(median_of(scaled_of(reading.usd_per_xlm@)))
    }
    &&& p.sources@.len() == quotes.len()
    &&& forall|k: int|
        0 <= k < quotes.len() ==> {
            &&& (#[trigger] p.sources@[k]).centavos_per_xlm == quotes[k]
            &&& p.sources@[k].name@ == candidate_names(reading)[k]
            &&& p.sources@[k].leg@ == if k < n_direct {
                "XLM/PHP"@
            } else {
                "XLM/USD x USD/PHP"@
            }
            &&& p.sources@[k].deviation_bps == deviation_of(quotes[k], agreed)
            &&& p.sources@[k].used == (p.sources@[k].deviation_bps <= 500)
        }
    &&& p.failures@.len() == reading.failures@.len()
    &&& forall|k: int|
        0 <= k < reading.failures@.len() ==> (#[trigger] p.failures@[k]).name@
            == reading.failures@[k].name@ && p.failures@[k].reason@ == reading.failures@[k].reason@
    &&& p.method@ == method_text(count_used(p.sources@) as nat, quotes.len())
}

fn scaled_values(rates: &Vec<SourceRate>) -> (r: Vec<i64>)
    ensures
        r@ == scaled_of(rates@),
{
    let mut out: Vec<i64> = Vec::new();
    let n = rates.len();
    let mut i: usize = 0;
    while i < n
        invariant
            i <= n,
            n == rates@.len(),
            out@ =~= scaled_of(rates@).take(i as int),
        decreases n - i,
    {
        out.push(rates[i].scaled);
        i = i + 1;
    }
    proof {
        assert(scaled_of(rates@).take(n as int) =~= scaled_of(rates@));
    }
    out
}

/// Turns a round of feed answers into one price, or none to refuse: the
/// fiat leg's median carries the dollar quotes into pesos, every candidate is
/// agreed on with `agree_on_rate` (two feeds within 5%), and each feed is
/// recorded with its distance from the agreed number.
pub fn aggregate(reading: Reading, as_of: i64) -> (r: Option<Priced>)
    requires
        reading.direct_php@.len() + reading.usd_per_xlm@.len() <= usize::MAX,
    ensures
        r is None <==> agreed_rate(candidate_quotes(reading), 2, 500) is None,
        r matches Some(p) ==> aggregate_ok(reading, as_of, p),
{
    let fx_values = scaled_values(&reading.php_per_usd);
    let usd_values = scaled_values(&reading.usd_per_xlm);
    let usd_php_scaled = median(&fx_values);
    let usd_per_xlm_scaled = median(&usd_values);
    let ghost quotes = candidate_quotes(reading);
    let ghost names = candidate_names(reading);
    let mut quote_names: Vec<String> = Vec::new();
    let mut centavos: Vec<i64> = Vec::new();
    let nd = reading.direct_php.len();
    let mut i: usize = 0;
    while i < nd
        invariant
            i <= nd,
            nd == reading.direct_php@.len(),
            quote_names@.len() == i,
            centavos@.len() == i,
            forall|k: int| 0 <= k < i ==> #[trigger] centavos@[k] == quotes[k],
            forall|k: int| 0 <= k < i ==> #[trigger] quote_names@[k]@ == names[k],
            quotes == candidate_quotes(reading),
            names == candidate_names(reading),
        decreases nd - i,
    {
        let s = &reading.direct_php[i];
        quote_names.push(s.name.clone());
        centavos.push(scaled_to_centavos(s.scaled));
        i = i + 1;
    }
    match usd_php_scaled {
        Some(fx) => {
            let nu = reading.usd_per_xlm.len();
            let mut j: usize = 0;
            while j < nu
                invariant
                    j <= nu,
                    nu == reading.usd_per_xlm@.len(),
                    nd == reading.direct_php@.len(),
                    nd + nu <= usize::MAX,
                    reading.php_per_usd@.len() > 0,
                    fx == median_of(scaled_of(reading.php_per_usd@)),
                    quote_names@.len() == nd + j,
                    centavos@.len() == nd + j,
                    forall|k: int| 0 <= k < nd + j ==> #[trigger] centavos@[k] == quotes[k],
                    forall|k: int| 0 <= k < nd + j ==> #[trigger] quote_names@[k]@ == names[k],
                    quotes == candidate_quotes(reading),
                    names == candidate_names(reading),
                decreases nu - j,
            {
                let s = &reading.usd_per_xlm[j];
                quote_names.push(s.name.clone());
                centavos.push(scaled_to_centavos(derive_php_per_xlm(s.scaled, fx)));
                j = j + 1;
            }
        },
        None => {},
    }
    proof {
        assert(centavos@ =~= quotes);
    }
    let agreed = match agree_on_rate(&centavos, 2, 500) {
        Some(a) => a,
        None => {
            return None;
        },
    };
    let ghost n = quotes.len();
    let mut sources: Vec<PricedSource> = Vec::new();
    let mut used: u64 = 0;
    let mut k: usize = 0;
    let m = centavos.len();
    while k < m
        invariant
            k <= m,
            m == n,
            n == quotes.len(),
            centavos@ == quotes,
            quote_names@.len() == n,
            forall|q: int| 0 <= q < n ==> #[trigger] quote_names@[q]@ == names[q],
            names == candidate_names(reading),
            nd == reading.direct_php@.len(),
            sources@.len() == k,
            used == count_used(sources@),
            used <= k,
            forall|q: int|
                0 <= q < k ==> {
                    &&& (#[trigger] sources@[q]).centavos_per_xlm == quotes[q]
                    &&& sources@[q].name@ == names[q]
                    &&& sources@[q].leg@ == if q < nd {
                        "XLM/PHP"@
                    } else {
                        "XLM/USD x USD/PHP"@
                    }
                    &&& sources@[q].deviation_bps == deviation_of(quotes[q], agreed)
                    &&& sources@[q].used == (sources@[q].deviation_bps <= 500)
                },
        decreases m - k,
    {
        let c = centavos[k];
        let diff = c as i128 - agreed as i128;
        let abs = if diff >= 0 {
            diff
        } else {
            -diff
        };
        let floor: i128 = if agreed > 1 {
            agreed as i128
        } else {
            1
        };
        proof {
            assert(abs * 10_000 <= 0x2_0000_0000_0000_0000 * 10_000) by (nonlinear_arith)
                requires
                    0 <= abs <= 0x2_0000_0000_0000_0000,
            ;
        }
        let deviation = div_toward_zero(abs * 10_000, floor) as i64;
        let leg: &'static str = if k < nd {
            "XLM/PHP"
        } else {
            "XLM/USD x USD/PHP"
        };
        let is_used = deviation <= 500;
        let ghost before = sources@;
        sources.push(
            PricedSource {
                name: quote_names[k].clone(),
                centavos_per_xlm: c,
                leg,
                deviation_bps: deviation,
                used: is_used,
            },
        );
        proof {
            assert(sources@.drop_last() =~= before);
        }
        if is_used {
            used = used + 1;
        }
        k = k + 1;
    }
    let mut failures: Vec<PricedFailure> = Vec::new();
    let nf = reading.failures.len();
    let mut f: usize = 0;
    while f < nf
        invariant
            f <= nf,
            nf == reading.failures@.len(),
            failures@.len() == f,
            forall|q: int|
                0 <= q < f ==> (#[trigger] failures@[q]).name@ == reading.failures@[q].name@
                    && failures@[q].reason@ == reading.failures@[q].reason@,
        decreases nf - f,
    {
        let fl = &reading.failures[f];
        failures.push(PricedFailure { name: fl.name.clone(), reason: fl.reason.clone() });
        f = f + 1;
    }
    let mut method = String::from_str("median of ");
    push_decimal(&mut method, used);
    method.append(" agreeing feed");
    if used != 1 {
        method.append("s");
    } else {
        method.append("");
    }
    method.append(" out of ");
    push_decimal(&mut method, m as u64);
    method.append(" read");
    proof {
        assert(method@ =~= method_text(used as nat, n));
    }
    let usd_php_centavos = match usd_php_scaled {
        Some(fx) => Some(scaled_to_centavos(fx)),
        None => None,
    };
    Some(
        Priced {
            centavos_per_xlm: agreed,
            as_of,
            method,
            usd_php_centavos,
            usd_per_xlm_e8: usd_per_xlm_scaled,
            sources,
            failures,
            live: true,
        },
    )
}

/// What to serve when a round produced no agreement: a recent agreement
/// still stands inside the staleness window; anything older fails closed.
pub fn hold_or_refuse(cached: Option<Priced>, now: i64) -> (r: Result<Priced, Refusal>)
    ensures
        r is Ok <==> cached is Some && now - cached->0.as_of <= MAX_AGE_SECS,
        r matches Ok(p) ==> p == cached->0,
        r matches Err(e) ==> e.status == 503 && e.message@ == PRICING_UNAVAILABLE@,
{
    match cached {
        Some(p) => {
            if now as i128 - p.as_of as i128 <= MAX_AGE_SECS as i128 {
                Ok(p)
            } else {
                Err(Refusal { status: 503, message: PRICING_UNAVAILABLE })
            }
        },
        None => Err(Refusal { status: 503, message: PRICING_UNAVAILABLE }),
    }
}

pub const PRICING_UNAVAILABLE: &'static str =
    "XLM pricing is unavailable — no independent price feeds agree right now";

/// Whether a price may issue a loan: it must be a live agreement, no older
/// than the staleness window, and carry both legs the vault contract checks.
pub fn check_issuable(priced: &Priced, now: i64) -> (r: Result<(), Refusal>)
    ensures
        r is Ok <==> priced.live && now - priced.as_of <= MAX_AGE_SECS
            && priced.usd_per_xlm_e8 is Some && priced.usd_php_centavos is Some,
        r matches Err(e) ==> e.status == 503 && e.message@ == PRICING_UNAVAILABLE@,
{
    if !priced.live || now as i128 - priced.as_of as i128 > MAX_AGE_SECS as i128
        || priced.checkable_legs().is_none() {
        return Err(Refusal { status: 503, message: PRICING_UNAVAILABLE });
    }
    Ok(())
}

/// Whether a cached agreement is young enough to reuse without asking the feeds.
pub fn is_fresh(as_of: i64, now: i64) -> (r: bool)
    ensures
        r == (now - as_of < FRESH_SECS),
{
    (now as i128 - as_of as i128) < FRESH_SECS as i128
}

/// The price a screen may show when no feed agrees: the last rate on
/// record, marked as not live, with nothing to check it against.
pub fn recorded_price(centavos_per_xlm: i64, as_of: i64) -> (r: Priced)
    ensures
        r.centavos_per_xlm == centavos_per_xlm,
        r.as_of == as_of,
        !r.live,
        r.usd_php_centavos is None,
        r.usd_per_xlm_e8 is None,
        r.sources@.len() == 0,
        r.failures@.len() == 0,
        r.method@ == "last recorded rate — no live feed agreed"@,
{
    Priced {
        centavos_per_xlm,
        as_of,
        method: String::from_str("last recorded rate — no live feed agreed"),
        usd_php_centavos: None,
        usd_per_xlm_e8: None,
        sources: Vec::new(),
        failures: Vec::new(),
        live: false,
    }
}

/// What asking for the current price does next.
#[derive(Clone, Copy, Debug, PartialEq, Eq)]
pub enum PricingStep {
    /// The cached agreement is fresh: serve it.
    UseCached,
    /// The feeds were already asked this window: hold a recent agreement or refuse.
    HoldOrRefuse,
    /// Ask the feeds, and note the attempt.
    Fetch,
}

/// Decides a request for the current price: a fresh cached agreement is
/// served; otherwise the feeds are asked at most once per freshness window,
/// even when that one attempt failed.
pub fn pricing_step(cached_as_of: Option<i64>, last_attempt: i64, now: i64) -> (r: PricingStep)
    ensures
        r == (if cached_as_of is Some && now - cached_as_of->0 < FRESH_SECS {
            PricingStep::UseCached
        } else if now - last_attempt < FRESH_SECS {
            PricingStep::HoldOrRefuse
        } else {
            PricingStep::Fetch
        }),
{
    if let Some(as_of) = cached_as_of {
        if is_fresh(as_of, now) {
            return PricingStep::UseCached;
        }
    }
    if is_fresh(last_attempt, now) {
        PricingStep::HoldOrRefuse
    } else {
        PricingStep::Fetch
    }
}

} // verus!
