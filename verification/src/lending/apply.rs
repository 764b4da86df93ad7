//! Applying for a loan: the terms are checked against the rulebook, the loan
//! priced off the borrower's score band, and a guarantor loan's backing
//! settled before anyone is asked to vouch for it.

use vstd::prelude::*;

use crate::Refusal;
use crate::domain::loans::{
    CoverError, CoverPlan, band_covers, band_for, borrower_cover, cap_for, cap_of, first_band,
    lemma_band_for_is_first, lemma_first_band, plan_cover, rate_bps,
};
use crate::policy::{Band, PolicyParams};
use crate::pricing::Priced;
use crate::text::str_eq;

verus! {

/// One person a borrower asks to guarantee the loan, and the centavos they
/// are asked to pledge.
#[derive(Clone, Debug)]
pub struct GuarantorAsk {
    pub username: String,
    pub pledge_amount: i64,
}

/// The term must lie in the rulebook's range and the amount reach its
/// minimum loan.
pub fn check_terms(amount: i64, term_months: i16, params: &PolicyParams) -> (r: Result<(), Refusal>)
    ensures
        r == (if term_months < params.term_months.min || term_months > params.term_months.max {
            Err(Refusal { status: 422, message: "Term must be between 3 and 12 months" })
        } else if amount < params.min_loan {
            Err(Refusal { status: 422, message: "Amount is below the minimum loan" })
        } else {
            Ok(())
        }),
{
    if term_months < params.term_months.min || term_months > params.term_months.max {
        return Err(Refusal { status: 422, message: "Term must be between 3 and 12 months" });
    }
    if amount < params.min_loan {
        return Err(Refusal { status: 422, message: "Amount is below the minimum loan" });
    }
    Ok(())
}

/// Whether any leg of the loan rests on XLM, which must be priced before the
/// loan can be written: all of an XLM-collateral loan, or the borrower's own
/// XLM share of a guarantor loan.
pub fn needs_xlm_leg(product: &str, xlm_cover: i64) -> (r: bool)
    ensures
        r == (product@ == "xlm_collateral"@ || (product@ == "guarantor"@ && xlm_cover > 0)),
{
    str_eq(product, "xlm_collateral") || (str_eq(product, "guarantor") && xlm_cover > 0)
}

/// A loan's price and backing, once its terms pass.
#[derive(Debug, PartialEq, Eq)]
pub struct Terms {
    pub rate_bps: i32,
    pub cap: i64,
    /// A guarantor loan's settled cover; none for the other products.
    pub cover: Option<CoverPlan>,
}

/// What is wrong with the borrower's own cover of a guarantor loan, if
/// anything. The figures stay out of the messages: the floor is policy data,
/// and the quote already shows the live number.
pub open spec fn cover_refusal(amount: i64, deposit_cover: i64, xlm_cover: i64, min_pct: i64) -> Option<Refusal> {
    if deposit_cover < 0 || xlm_cover < 0 || deposit_cover + xlm_cover > amount {
        Some(
            Refusal {
                status: 422,
                message: "Your cover can't be negative or add up to more than the loan",
            },
        )
    } else if deposit_cover + xlm_cover < borrower_cover(amount, min_pct) {
        Some(
            Refusal {
                status: 422,
                message: "You must cover at least half of this loan yourself, from your own deposit or your own XLM",
            },
        )
    } else if amount - deposit_cover - xlm_cover <= 0 {
        Some(
            Refusal {
                status: 422,
                message: "You're covering the whole loan yourself — apply for a deposit-backed or XLM loan instead",
            },
        )
    } else {
        None
    }
}

pub open spec fn planned_cover(amount: i64, deposit_cover: i64, xlm_cover: i64, min_pct: i64) -> CoverPlan {
    CoverPlan {
        required: borrower_cover(amount, min_pct),
        deposit: deposit_cover,
        xlm: xlm_cover,
        total: (deposit_cover + xlm_cover) as i64,
        guarantor_gap: (amount - deposit_cover - xlm_cover) as i64,
    }
}

pub open spec fn rate_of(product: Seq<char>, band: Band) -> i32 {
    if product == "guarantor"@ {
        band.guarantor_bps
    } else {
        band.secured_bps
    }
}

/// The verdict on an application once the borrower's row is locked: one open
/// loan at a time, a score band that qualifies, the band's cap for the
/// product, and for a guarantor loan the borrower's own cover.
pub open spec fn application_verdict(
    product: Seq<char>,
    amount: i64,
    score: i16,
    has_open: bool,
    deposit_cover: i64,
    xlm_cover: i64,
    params: PolicyParams,
) -> Result<Terms, Refusal> {
    if has_open {
        Err(Refusal { status: 409, message: "You already have an open loan — repay it first" })
    } else {
        match first_band(params.bands@, score, 0) {
            None => Err(
                Refusal { status: 403, message: "Your credit score doesn't qualify for a loan yet" },
            ),
            Some(i) => {
                let band = params.bands@[i];
                let cap = cap_of(product, band, params.guarantor_cap_multiple);
                if amount > cap {
                    Err(
                        Refusal {
                            status: 422,
                            message: "Amount exceeds your credit-score cap for this product",
                        },
                    )
                } else if product == "guarantor"@ {
                    match cover_refusal(
                        amount,
                        deposit_cover,
                        xlm_cover,
                        params.borrower_cover_min_pct,
                    ) {
                        Some(e) => Err(e),
                        None => Ok(
                            Terms {
                                rate_bps: rate_of(product, band),
                                cap,
                                cover: Some(
                                    planned_cover(
                                        amount,
                                        deposit_cover,
                                        xlm_cover,
                                        params.borrower_cover_min_pct,
                                    ),
                                ),
                            },
                        ),
                    }
                } else {
                    Ok(Terms { rate_bps: rate_of(product, band), cap, cover: None })
                }
            },
        }
    }
}

/// The three product names are told apart by their text.
pub proof fn lemma_product_names_distinct()
    ensures
        "xlm_collateral"@ != "guarantor"@,
        "deposit_backed"@ != "guarantor"@,
        "xlm_collateral"@ != "deposit_backed"@,
{
    reveal_strlit("xlm_collateral");
    reveal_strlit("guarantor");
    reveal_strlit("deposit_backed");
    assert("xlm_collateral"@[0] != "guarantor"@[0]);
    assert("deposit_backed"@[0] != "guarantor"@[0]);
    assert("xlm_collateral"@[0] != "deposit_backed"@[0]);
}

/// A loan is priced off the first band whose score range holds the
/// borrower's score, at that band's guarantor rate for a guarantor loan and
/// at its secured rate for the fully backed products (deposit-backed and
/// XLM-collateral), whatever the amount or the cover; only a guarantor loan
/// carries a cover plan.
pub proof fn law_application_rate(
    product: Seq<char>,
    amount: i64,
    score: i16,
    has_open: bool,
    deposit_cover: i64,
    xlm_cover: i64,
    params: PolicyParams,
)
    ensures
        application_verdict(product, amount, score, has_open, deposit_cover, xlm_cover, params) matches Ok(t)
            ==> ({
            let bands = params.bands@;
            let i = first_band(bands, score, 0)->0;
            &&& first_band(bands, score, 0) is Some
            &&& 0 <= i < bands.len()
            &&& band_covers(bands[i], score)
            &&& forall|j: int| 0 <= j < i ==> !band_covers(#[trigger] bands[j], score)
            &&& t.rate_bps == (if product == "guarantor"@ {
                bands[i].guarantor_bps
            } else {
                bands[i].secured_bps
            })
            &&& (product == "xlm_collateral"@ || product == "deposit_backed"@) ==> t.rate_bps
                == bands[i].secured_bps && t.cover is None
            &&& amount <= t.cap
            &&& product != "guarantor"@ ==> t.cap == bands[i].cap
            &&& product == "guarantor"@ ==> {
                let m: int = if params.guarantor_cap_multiple > 1 {
                    params.guarantor_cap_multiple as int
                } else {
                    1
                };
                &&& i64::MIN <= bands[i].cap * m <= i64::MAX ==> t.cap == bands[i].cap * m
                &&& bands[i].cap * m > i64::MAX ==> t.cap == i64::MAX
            }
        }),
        application_verdict(product, amount, score, has_open, deposit_cover, xlm_cover, params) is Ok
            ==> !has_open,
{
    lemma_first_band(params.bands@, score, 0);
    lemma_product_names_distinct();
}

/// Prices an application and settles its backing, or says why not.
pub fn price_application(
    product: &str,
    amount: i64,
    score: i16,
    has_open: bool,
    deposit_cover: i64,
    xlm_cover: i64,
    params: &PolicyParams,
) -> (r: Result<Terms, Refusal>)
    ensures
        r == application_verdict(
            product@,
            amount,
            score,
            has_open,
            deposit_cover,
            xlm_cover,
            *params,
        ),
        r matches Ok(t) ==> (first_band(params.bands@, score, 0) matches Some(i) && t.rate_bps == (
        if product@ == "guarantor"@ {
            params.bands@[i].guarantor_bps
        } else {
            params.bands@[i].secured_bps
        })),
        (product@ == "xlm_collateral"@ || product@ == "deposit_backed"@) ==> (r matches Ok(t) ==> (
        first_band(params.bands@, score, 0) matches Some(i) && t.rate_bps
            == params.bands@[i].secured_bps && t.cover is None)),
{
    proof {
        law_application_rate(product@, amount, score, has_open, deposit_cover, xlm_cover, *params);
    }
    if has_open {
        return Err(Refusal { status: 409, message: "You already have an open loan — repay it first" });
    }
    let found = band_for(score, params);
    proof {
        let f: Option<Band> = match found {
            Some(b) => Some(*b),
            None => None,
        };
        lemma_band_for_is_first(*params, score, f);
    }
    let band = match found {
        Some(b) => b,
        None => {
            return Err(
                Refusal { status: 403, message: "Your credit score doesn't qualify for a loan yet" },
            )
        },
    };
    let rate = rate_bps(product, band);
    let cap = cap_for(product, band, params);
    if amount > cap {
        return Err(
            Refusal { status: 422, message: "Amount exceeds your credit-score cap for this product" },
        );
    }
    if !str_eq(product, "guarantor") {
        return Ok(Terms { rate_bps: rate, cap, cover: None });
    }
    match plan_cover(amount, deposit_cover, xlm_cover, params.borrower_cover_min_pct) {
        Ok(plan) => Ok(Terms { rate_bps: rate, cap, cover: Some(plan) }),
        Err(CoverError::BelowFloor { .. }) => Err(
            Refusal {
                status: 422,
                message: "You must cover at least half of this loan yourself, from your own deposit or your own XLM",
            },
        ),
        Err(CoverError::NoGapLeft) => Err(
            Refusal {
                status: 422,
                message: "You're covering the whole loan yourself — apply for a deposit-backed or XLM loan instead",
            },
        ),
        Err(CoverError::Invalid) => Err(
            Refusal {
                status: 422,
                message: "Your cover can't be negative or add up to more than the loan",
            },
        ),
    }
}

/// A guarantor loan invites at least one guarantor, and no more than the
/// rulebook allows.
pub fn check_invite_count(count: usize, guarantors_max: i64) -> (r: Result<(), Refusal>)
    ensures
        r == (if count == 0 || count > guarantors_max {
            Err(
                Refusal {
                    status: 422,
                    message: "Invite at least 1 guarantor, up to your policy's guarantor limit",
                },
            )
        } else {
            Ok(())
        }),
{
    if count == 0 || count as i128 > guarantors_max as i128 {
        return Err(
            Refusal {
                status: 422,
                message: "Invite at least 1 guarantor, up to your policy's guarantor limit",
            },
        );
    }
    Ok(())
}

/// A guarantor, once found among the members: never the borrower, and never
/// the same member twice. `seen` holds the guarantors already accepted for
/// this application.
pub fn check_guarantor(guarantor: u128, borrower: u128, seen: &[u128]) -> (r: Result<(), Refusal>)
    ensures
        r == (if guarantor == borrower {
            Err(Refusal { status: 422, message: "You can't guarantee your own loan" })
        } else if seen@.contains(guarantor) {
            Err(Refusal { status: 422, message: "Each guarantor can only be invited once" })
        } else {
            Ok(())
        }),
{
    if guarantor == borrower {
        return Err(Refusal { status: 422, message: "You can't guarantee your own loan" });
    }
    let mut i: usize = 0;
    while i < seen.len()
        invariant
            i <= seen@.len(),
            forall|k: int| 0 <= k < i ==> seen@[k] != guarantor,
            guarantor != borrower,
        decreases seen@.len() - i,
    {
        if seen[i] == guarantor {
            assert(seen@.contains(guarantor)) by {
                assert(seen@[i as int] == guarantor);
            }
            return Err(Refusal { status: 422, message: "Each guarantor can only be invited once" });
        }
        i = i + 1;
    }
    Ok(())
}

/// The guarantors carry only what the borrower did not: their pledges must
/// add up to the gap.
pub fn check_pledges(total_pledged: i64, guarantor_gap: i64) -> (r: Result<(), Refusal>)
    ensures
        r == (if total_pledged < guarantor_gap {
            Err(
                Refusal {
                    status: 422,
                    message: "Guarantor pledges must add up to the share you aren't covering yourself",
                },
            )
        } else {
            Ok(())
        }),
{
    if total_pledged < guarantor_gap {
        return Err(
            Refusal {
                status: 422,
                message: "Guarantor pledges must add up to the share you aren't covering yourself",
            },
        );
    }
    Ok(())
}

/// The vault counts the collateral ratio in basis points; the rulebook states
/// it in whole percent.
pub fn collateral_ratio_bps(min_collateral_pct: i64) -> (r: i32)
    requires
        i32::MIN <= min_collateral_pct * 100 <= i32::MAX,
    ensures
        r == min_collateral_pct * 100,
{
    (min_collateral_pct * 100) as i32
}

/// What the borrower must lock on chain, and the pinned numbers the wallet
/// submits with the lock.
#[derive(Clone, Debug)]
pub struct XlmLeg {
    pub required_stroops: i64,
    pub contract: String,
    pub ratio_bps: i32,
    pub usd_per_xlm_e8: i64,
    pub usd_php_centavos: i64,
}

/// The answer to an application.
#[derive(Clone, Debug)]
pub struct ApplyResponse {
    pub loan_id: u128,
    pub status: &'static str,
    pub rate_bps: i32,
    pub principal: i64,
    pub required_stroops: Option<i64>,
    pub collateral_contract: Option<String>,
    pub priced_centavos_per_xlm: Option<i64>,
    pub priced_at: Option<i64>,
    pub price_method: Option<String>,
    pub priced_usd_per_xlm_e8: Option<i64>,
    pub priced_usd_php_centavos: Option<i64>,
    pub collateral_ratio_bps: Option<i32>,
    pub cover_required: Option<i64>,
    pub cover_deposit: Option<i64>,
    pub cover_xlm: Option<i64>,
    pub guarantor_gap: Option<i64>,
    pub message: &'static str,
}

pub open spec fn same_text(a: Option<String>, b: Option<Seq<char>>) -> bool {
    match (a, b) {
        (Some(x), Some(y)) => x@ == y,
        (None, None) => true,
        _ => false,
    }
}

/// How the coin leg and the price show in an answer: each field is the
/// leg's or the price's when there is one, and absent otherwise.
pub open spec fn shows_leg_and_price(r: ApplyResponse, leg: Option<XlmLeg>, priced: Option<Priced>) -> bool {
    &&& r.required_stroops == (match leg { Some(l) => Some(l.required_stroops), None => None })
    &&& same_text(r.collateral_contract, match leg { Some(l) => Some(l.contract@), None => None })
    &&& r.priced_usd_per_xlm_e8 == (match leg { Some(l) => Some(l.usd_per_xlm_e8), None => None })
    &&& r.priced_usd_php_centavos == (match leg { Some(l) => Some(l.usd_php_centavos), None => None })
    &&& r.collateral_ratio_bps == (match leg { Some(l) => Some(l.ratio_bps), None => None })
    &&& r.priced_centavos_per_xlm == (match priced { Some(p) => Some(p.centavos_per_xlm), None => None })
    &&& r.priced_at == (match priced { Some(p) => Some(p.as_of), None => None })
    &&& same_text(r.price_method, match priced { Some(p) => Some(p.method@), None => None })
}

/// The answer to an accepted application. A deposit-backed loan is funded at
/// once; an XLM loan waits for the lock, with the pinned numbers the wallet
/// submits; a guarantor loan waits for its backing, and echoes how it ended
/// up covered.
pub fn apply_answer(
    loan_id: u128,
    product: &str,
    rate_bps: i32,
    principal: i64,
    cover: Option<CoverPlan>,
    leg: Option<XlmLeg>,
    priced: Option<&Priced>,
) -> (r: ApplyResponse)
    requires
        product@ == "deposit_backed"@ || product@ == "xlm_collateral"@ || product@ == "guarantor"@,
        product@ == "xlm_collateral"@ ==> leg is Some && priced is Some,
        product@ == "guarantor"@ ==> cover is Some,
    ensures
        r.loan_id == loan_id,
        r.rate_bps == rate_bps,
        r.principal == principal,
        product@ == "deposit_backed"@ ==> {
            &&& r.status == "active"
            &&& shows_leg_and_price(r, None, None)
            &&& r.cover_required is None && r.cover_deposit is None && r.cover_xlm is None && r.guarantor_gap is None
            &&& r.message == "Loan approved and disbursed — your backing deposit is locked until it's repaid"
        },
        product@ == "xlm_collateral"@ ==> {
            &&& r.status == "pending"
            &&& shows_leg_and_price(r, leg, match priced { Some(p) => Some(*p), None => None })
            &&& r.cover_required is None && r.cover_deposit is None && r.cover_xlm is None && r.guarantor_gap is None
            &&& r.message == "Lock the required XLM from your wallet, then confirm — the loan disburses once the chain shows it"
        },
        product@ == "guarantor"@ ==> {
            let c = cover->0;
            &&& r.status == "pending"
            &&& shows_leg_and_price(r, leg, match priced { Some(p) => Some(*p), None => None })
            &&& r.cover_required == Some(c.required)
            &&& r.cover_deposit == Some(c.deposit)
            &&& r.cover_xlm == Some(c.xlm)
            &&& r.guarantor_gap == Some(c.guarantor_gap)
            &&& r.message == (if leg is Some {
                "Invitations sent — lock your XLM, and the loan disburses once that and your guarantors' pledges are both in"
            } else {
                "Invitations sent — the loan disburses once your guarantors accept and their pledges cover the rest"
            })
        },
{
    proof {
        reveal_strlit("deposit_backed");
        reveal_strlit("xlm_collateral");
        reveal_strlit("guarantor");
        assert("deposit_backed"@[0] != "xlm_collateral"@[0]);
        assert("deposit_backed"@[0] != "guarantor"@[0]);
        assert("xlm_collateral"@[0] != "guarantor"@[0]);
    }
    if str_eq(product, "deposit_backed") {
        return ApplyResponse {
            loan_id,
            status: "active",
            rate_bps,
            principal,
            required_stroops: None,
            collateral_contract: None,
            priced_centavos_per_xlm: None,
            priced_at: None,
            price_method: None,
            priced_usd_per_xlm_e8: None,
            priced_usd_php_centavos: None,
            collateral_ratio_bps: None,
            cover_required: None,
            cover_deposit: None,
            cover_xlm: None,
            guarantor_gap: None,
            message: "Loan approved and disbursed — your backing deposit is locked until it's repaid",
        };
    }
    let xlm = str_eq(product, "xlm_collateral");
    let has_leg = leg.is_some();
    let (required_stroops, collateral_contract, usd, php, ratio) = match leg {
        Some(l) => (Some(l.required_stroops), Some(l.contract), Some(l.usd_per_xlm_e8), Some(l.usd_php_centavos), Some(l.ratio_bps)),
        None => (None, None, None, None, None),
    };
    let (rate, at, method) = match priced {
        Some(p) => (Some(p.centavos_per_xlm), Some(p.as_of), Some(p.method.clone())),
        None => (None, None, None),
    };
    if xlm {
        return ApplyResponse {
            loan_id,
            status: "pending",
            rate_bps,
            principal,
            required_stroops,
            collateral_contract,
            priced_centavos_per_xlm: rate,
            priced_at: at,
            price_method: method,
            priced_usd_per_xlm_e8: usd,
            priced_usd_php_centavos: php,
            collateral_ratio_bps: ratio,
            cover_required: None,
            cover_deposit: None,
            cover_xlm: None,
            guarantor_gap: None,
            message: "Lock the required XLM from your wallet, then confirm — the loan disburses once the chain shows it",
        };
    }
    let c = cover.unwrap();
    ApplyResponse {
        loan_id,
        status: "pending",
        rate_bps,
        principal,
        required_stroops,
        collateral_contract,
        priced_centavos_per_xlm: rate,
        priced_at: at,
        price_method: method,
        priced_usd_per_xlm_e8: usd,
        priced_usd_php_centavos: php,
        collateral_ratio_bps: ratio,
        cover_required: Some(c.required),
        cover_deposit: Some(c.deposit),
        cover_xlm: Some(c.xlm),
        guarantor_gap: Some(c.guarantor_gap),
        message: if has_leg {
            "Invitations sent — lock your XLM, and the loan disburses once that and your guarantors' pledges are both in"
        } else {
            "Invitations sent — the loan disburses once your guarantors accept and their pledges cover the rest"
        },
    }
}

} // verus!
