//! The loan quote a member sees before applying: what each product would
//! cost them, how much they could borrow, what it would take to back it, and
//! a preview of the schedule.

use vstd::prelude::*;

use crate::domain::loans::{
    band_for, borrowable, cap_for, cap_of, collateral_needed, collateral_stroops, deposit_collateral,
    first_band, lemma_band_for_is_first, max_borrow_against_deposit, rate_bps,
    required_collateral_stroops, required_deposit_collateral,
};
use crate::domain::schedule::{build_schedule, interest_due_at, principal_due_at};
use crate::lending::apply::{lemma_product_names_distinct, rate_of};
use crate::policy::{Band, PolicyParams};

verus! {

/// What a member asks to be quoted; every part is optional.
#[derive(Clone, Debug)]
pub struct QuoteQuery {
    pub amount: Option<i64>,
    pub term_months: Option<i16>,
    pub product: Option<String>,
}

/// One product's terms for this member.
#[derive(Clone, Copy, Debug, PartialEq, Eq)]
pub struct ProductQuote {
    pub product: &'static str,
    pub eligible: bool,
    pub reason: Option<&'static str>,
    pub rate_bps: i32,
    pub max_amount: i64,
    pub required_deposit: Option<i64>,
    pub required_stroops: Option<i64>,
    pub required_pledges: Option<i64>,
}

/// One row of the schedule preview.
#[derive(Clone, Copy, Debug, PartialEq, Eq)]
pub struct InstallmentPreview {
    pub installment: i16,
    pub principal_due: i64,
    pub interest_due: i64,
}

/// The whole quote.
#[derive(Clone, Debug)]
pub struct QuoteResponse {
    pub score: i16,
    pub band_cap: Option<i64>,
    pub eligible: bool,
    pub products: Vec<ProductQuote>,
    pub schedule_preview: Option<Vec<InstallmentPreview>>,
    pub total_interest: Option<i64>,
}

pub open spec fn blocked_reason(has_open_loan: bool) -> Option<&'static str> {
    if has_open_loan {
        Some("You already have an open loan — repay it first")
    } else {
        None
    }
}

/// The deposit-backed quote: capped by the band and by what the member's
/// withdrawable deposit can carry at the loan-to-value ratio.
pub open spec fn deposit_quote(
    band: Band,
    params: PolicyParams,
    available: i64,
    has_open_loan: bool,
    amount: Option<i64>,
) -> ProductQuote {
    let band_cap = cap_of("deposit_backed"@, band, params.guarantor_cap_multiple);
    let carry = borrowable(available, params.deposit_ltv_pct);
    let cap = if band_cap < carry {
        band_cap
    } else {
        carry
    };
    ProductQuote {
        product: "deposit_backed",
        eligible: !has_open_loan && cap >= params.min_loan,
        reason: if has_open_loan {
            blocked_reason(has_open_loan)
        } else if cap < params.min_loan {
            Some("Deposit more first — you can borrow up to 90% of your withdrawable deposit")
        } else {
            None
        },
        rate_bps: rate_of("deposit_backed"@, band),
        max_amount: cap,
        required_deposit: match amount {
            Some(a) => Some(deposit_collateral(a, params.deposit_ltv_pct)),
            None => None,
        },
        required_stroops: None,
        required_pledges: None,
    }
}

/// The XLM-collateral quote, priced at the recorded rate.
pub open spec fn xlm_quote(
    band: Band,
    params: PolicyParams,
    centavos_per_xlm: i64,
    has_open_loan: bool,
    contract_ready: bool,
    amount: Option<i64>,
) -> ProductQuote {
    ProductQuote {
        product: "xlm_collateral",
        eligible: !has_open_loan && contract_ready,
        reason: if has_open_loan {
            blocked_reason(has_open_loan)
        } else if contract_ready {
            None
        } else {
            Some("XLM collateral is not enabled on this deployment yet")
        },
        rate_bps: rate_of("xlm_collateral"@, band),
        max_amount: cap_of("xlm_collateral"@, band, params.guarantor_cap_multiple),
        required_deposit: None,
        required_stroops: match amount {
            Some(a) => Some(collateral_stroops(a, params.xlm_min_collateral_pct, centavos_per_xlm)),
            None => None,
        },
        required_pledges: None,
    }
}

/// The guarantor quote: the pledges must cover the whole amount asked.
pub open spec fn guarantor_quote(
    band: Band,
    params: PolicyParams,
    has_open_loan: bool,
    amount: Option<i64>,
) -> ProductQuote {
    ProductQuote {
        product: "guarantor",
        eligible: !has_open_loan,
        reason: blocked_reason(has_open_loan),
        rate_bps: rate_of("guarantor"@, band),
        max_amount: cap_of("guarantor"@, band, params.guarantor_cap_multiple),
        required_deposit: None,
        required_stroops: None,
        required_pledges: amount,
    }
}

/// Each product is quoted at its band's rate for that product: the secured
/// rate for the fully backed products (deposit-backed and XLM-collateral) and
/// the guarantor rate for a guarantor loan, whatever the member's deposit,
/// the XLM rate, the amount asked or the deployment.
pub proof fn law_quote_rates(
    band: Band,
    params: PolicyParams,
    available: i64,
    centavos_per_xlm: i64,
    has_open_loan: bool,
    contract_ready: bool,
    amount: Option<i64>,
)
    ensures
        deposit_quote(band, params, available, has_open_loan, amount).rate_bps == band.secured_bps,
        xlm_quote(band, params, centavos_per_xlm, has_open_loan, contract_ready, amount).rate_bps
            == band.secured_bps,
        guarantor_quote(band, params, has_open_loan, amount).rate_bps == band.guarantor_bps,
        xlm_quote(band, params, centavos_per_xlm, has_open_loan, contract_ready, amount).max_amount
            == band.cap,
        deposit_quote(band, params, available, has_open_loan, amount).max_amount <= band.cap,
        deposit_quote(band, params, available, has_open_loan, amount).max_amount <= borrowable(
            available,
            params.deposit_ltv_pct,
        ),
        xlm_quote(band, params, centavos_per_xlm, has_open_loan, contract_ready, amount).product
            == "xlm_collateral",
{
    lemma_product_names_distinct();
}

/// The interest of the first `i` installments together.
pub open spec fn interest_before(principal: i64, rate: i32, term: i16, i: int) -> int
    decreases i,
{
    if i <= 0 {
        0
    } else {
        interest_before(principal, rate, term, i - 1) + interest_due_at(principal, rate, term, i - 1)
    }
}

/// The product a schedule preview is priced for: the one asked about, or
/// deposit-backed.
pub open spec fn preview_product(q: QuoteQuery) -> Seq<char> {
    match q.product {
        Some(p) => p@,
        None => "deposit_backed"@,
    }
}

/// Whether the quote previews a schedule: an amount above zero, a term in
/// range, and a band that qualifies.
pub open spec fn previews(q: QuoteQuery, params: PolicyParams, has_band: bool) -> bool {
    &&& q.amount matches Some(a) && a > 0
    &&& q.term_months matches Some(t) && params.term_months.min <= t <= params.term_months.max
    &&& has_band
}

fn preview_rows(amount: i64, rate: i32, term: i16) -> (r: (Vec<InstallmentPreview>, i64))
    requires
        term >= 1,
        forall|k: int| 0 <= k <= term ==> i64::MIN <= #[trigger] interest_before(amount, rate, term, k) <= i64::MAX,
    ensures
        r.0@.len() == term,
        forall|i: int|
            0 <= i < term ==> #[trigger] r.0@[i] == (InstallmentPreview {
                installment: (i + 1) as i16,
                principal_due: principal_due_at(amount, term, i) as i64,
                interest_due: interest_due_at(amount, rate, term, i),
            }),
        r.1 == interest_before(amount, rate, term, term as int),
{
    let rows = build_schedule(amount, rate, term, 0);
    assert(forall|k: int|
        0 <= k < term ==> {
            &&& #[trigger] rows@[k].installment == k + 1
            &&& rows@[k].principal_due == principal_due_at(amount, term, k)
            &&& rows@[k].interest_due == interest_due_at(amount, rate, term, k)
        });
    let mut out: Vec<InstallmentPreview> = Vec::new();
    let mut total: i64 = 0;
    let mut i: usize = 0;
    let n = rows.len();
    while i < n
        invariant
            i <= n,
            n == term,
            rows@.len() == term,
            forall|k: int|
                0 <= k < term ==> {
                    &&& #[trigger] rows@[k].installment == k + 1
                    &&& rows@[k].principal_due == principal_due_at(amount, term, k)
                    &&& rows@[k].interest_due == interest_due_at(amount, rate, term, k)
                },
            forall|k: int| 0 <= k <= term ==> i64::MIN <= #[trigger] interest_before(amount, rate, term, k) <= i64::MAX,
            out@.len() == i,
            forall|k: int|
                0 <= k < i ==> #[trigger] out@[k] == (InstallmentPreview {
                    installment: (k + 1) as i16,
                    principal_due: principal_due_at(amount, term, k) as i64,
                    interest_due: interest_due_at(amount, rate, term, k),
                }),
            total == interest_before(amount, rate, term, i as int),
        decreases n - i,
    {
        let row = &rows[i];
        assert(i64::MIN <= interest_before(amount, rate, term, (i + 1) as int) <= i64::MAX);
        total = total + row.interest_due;
        out.push(
            InstallmentPreview {
                installment: row.installment,
                principal_due: row.principal_due,
                interest_due: row.interest_due,
            },
        );
        i = i + 1;
    }
    (out, total)
}

/// The quote for a member with this score, withdrawable deposit and loan
/// history, against the rulebook and the recorded XLM rate.
pub fn quote_for(
    q: &QuoteQuery,
    params: &PolicyParams,
    centavos_per_xlm: i64,
    score: i16,
    available: i64,
    has_open_loan: bool,
    contract_ready: bool,
) -> (r: QuoteResponse)
    requires
        q.amount matches Some(a) ==> {
            &&& collateral_needed(a, params.xlm_min_collateral_pct) * 10_000_000 + (if centavos_per_xlm > 1 {
                centavos_per_xlm as int
            } else {
                1
            }) <= i128::MAX
            &&& collateral_needed(a, params.xlm_min_collateral_pct) * 10_000_000 > i128::MIN
        },
        previews(*q, *params, first_band(params.bands@, score, 0) is Some) ==> {
            let band = params.bands@[first_band(params.bands@, score, 0)->0];
            let rate = rate_of(preview_product(*q), band);
            let a = q.amount->0;
            let t = q.term_months->0;
            &&& t >= 1
            &&& forall|k: int| 0 <= k <= t ==> i64::MIN <= #[trigger] interest_before(a, rate, t, k) <= i64::MAX
        },
    ensures
        r.score == score,
        match first_band(params.bands@, score, 0) {
            None => {
                &&& r.band_cap is None
                &&& !r.eligible
                &&& r.products@.len() == 0
            },
            Some(i) => {
                let band = params.bands@[i];
                &&& r.band_cap == Some(band.cap)
                &&& r.eligible
                &&& r.products@ == seq![
                    deposit_quote(band, *params, available, has_open_loan, q.amount),
                    xlm_quote(band, *params, centavos_per_xlm, has_open_loan, contract_ready, q.amount),
                    guarantor_quote(band, *params, has_open_loan, q.amount),
                ]
            },
        },
        first_band(params.bands@, score, 0) matches Some(i) ==> {
            let band = params.bands@[i];
            &&& r.products@[0].product == "deposit_backed" && r.products@[0].rate_bps == band.secured_bps
            &&& r.products@[1].product == "xlm_collateral" && r.products@[1].rate_bps == band.secured_bps
            &&& r.products@[2].product == "guarantor" && r.products@[2].rate_bps == band.guarantor_bps
        },
        r.schedule_preview is Some <==> previews(*q, *params, first_band(params.bands@, score, 0) is Some),
        r.total_interest is Some <==> r.schedule_preview is Some,
        r.schedule_preview matches Some(rows) ==> {
            let band = params.bands@[first_band(params.bands@, score, 0)->0];
            let rate = if preview_product(*q) == "guarantor"@ {
                band.guarantor_bps
            } else {
                band.secured_bps
            };
            let a = q.amount->0;
            let t = q.term_months->0;
            &&& rows@.len() == t
            &&& forall|i: int|
                0 <= i < t ==> #[trigger] rows@[i] == (InstallmentPreview {
                    installment: (i + 1) as i16,
                    principal_due: principal_due_at(a, t, i) as i64,
                    interest_due: interest_due_at(a, rate, t, i),
                })
            &&& r.total_interest == Some(interest_before(a, rate, t, t as int) as i64)
        },
{
    proof {
        lemma_product_names_distinct();
    }
    let found = band_for(score, params);
    proof {
        let f: Option<Band> = match found {
            Some(b) => Some(*b),
            None => None,
        };
        lemma_band_for_is_first(*params, score, f);
    }
    let mut products: Vec<ProductQuote> = Vec::new();
    if let Some(band) = found {
        let blocked: Option<&'static str> = if has_open_loan {
            Some("You already have an open loan — repay it first")
        } else {
            None
        };
        let band_cap = cap_for("deposit_backed", band, params);
        let carry = max_borrow_against_deposit(available, params.deposit_ltv_pct);
        let dep_cap = if band_cap < carry {
            band_cap
        } else {
            carry
        };
        let dep_reason = if has_open_loan {
            blocked
        } else if dep_cap < params.min_loan {
            Some("Deposit more first — you can borrow up to 90% of your withdrawable deposit")
        } else {
            None
        };
        let required_deposit = match q.amount {
            Some(a) => Some(required_deposit_collateral(a, params.deposit_ltv_pct)),
            None => None,
        };
        products.push(
            ProductQuote {
                product: "deposit_backed",
                eligible: !has_open_loan && dep_cap >= params.min_loan,
                reason: dep_reason,
                rate_bps: rate_bps("deposit_backed", band),
                max_amount: dep_cap,
                required_deposit,
                required_stroops: None,
                required_pledges: None,
            },
        );
        let xlm_reason = if has_open_loan {
            blocked
        } else if contract_ready {
            None
        } else {
            Some("XLM collateral is not enabled on this deployment yet")
        };
        let required_stroops = match q.amount {
            Some(a) => Some(
                required_collateral_stroops(a, params.xlm_min_collateral_pct, centavos_per_xlm),
            ),
            None => None,
        };
        products.push(
            ProductQuote {
                product: "xlm_collateral",
                eligible: !has_open_loan && contract_ready,
                reason: xlm_reason,
                rate_bps: rate_bps("xlm_collateral", band),
                max_amount: cap_for("xlm_collateral", band, params),
                required_deposit: None,
                required_stroops,
                required_pledges: None,
            },
        );
        products.push(
            ProductQuote {
                product: "guarantor",
                eligible: !has_open_loan,
                reason: blocked,
                rate_bps: rate_bps("guarantor", band),
                max_amount: cap_for("guarantor", band, params),
                required_deposit: None,
                required_stroops: None,
                required_pledges: q.amount,
            },
        );
    }
    let mut schedule_preview: Option<Vec<InstallmentPreview>> = None;
    let mut total_interest: Option<i64> = None;
    if let Some(band) = found {
        if let Some(amount) = q.amount {
            if let Some(term) = q.term_months {
                if amount > 0 && term >= params.term_months.min && term <= params.term_months.max {
                    let rate = match &q.product {
                        Some(p) => rate_bps(p.as_str(), band),
                        None => rate_bps("deposit_backed", band),
                    };
                    proof {
                        let k = first_band(params.bands@, score, 0)->0;
                        assert(*band == params.bands@[k]);
                        assert(previews(*q, *params, true));
                        assert(rate == rate_of(preview_product(*q), params.bands@[k]));
                    }
                    let (rows, total) = preview_rows(amount, rate, term);
                    schedule_preview = Some(rows);
                    total_interest = Some(total);
                }
            }
        }
    }
    let band_cap = match found {
        Some(b) => Some(b.cap),
        None => None,
    };
    QuoteResponse {
        score,
        band_cap,
        eligible: found.is_some(),
        products,
        schedule_preview,
        total_interest,
    }
}

} // verus!
