//! The decisions the lending endpoints make, on concrete rows.

use lr_engine::policy::{admit_policy, recorded_fx};
use lr_engine::lending::recovery::plan_recovery;
use lr_engine::lending::payout::{Submitted, check_proceeds_loan, prefers_stripe, submission_record};
use lr_engine::accounts::standing::credit_score;
use lr_engine::Refusal;
use lr_engine::domain::{CoverPlan, InterestParts, split_interest};
use lr_engine::domain::limits::DepositLimitsFor;
use lr_engine::lending::apply::{
    check_guarantor, check_invite_count, check_pledges, check_terms, collateral_ratio_bps,
    needs_xlm_leg, price_application,
};
use lr_engine::lending::guarantors::{after_accept, after_decline, check_invite, check_loan_waiting};
use lr_engine::lending::ledger::{LedgerError, Posting, check_balanced, ledger_refusal};
use lr_engine::lending::lots::{LotChange, MemberLot, by_member, fifo_changes, funding_plan, seize};
use lr_engine::lending::payout::{choose_destination, note_for};
use lr_engine::lending::pool::{
    InterestCollected, deposit_status, my_funds, pool_stats, split_example,
};
use lr_engine::lending::public::{StatusCount, InterestSlice, recovery_view, split_view, summarize};
use lr_engine::lending::quote::{QuoteQuery, quote_for};
use lr_engine::lending::reconcile::{
    Absorbed, ChargedGuarantor, Payable, check_mark_paid, check_payable, check_reopen, reconciled,
    reason_note, settle_split,
};
use lr_engine::lending::recovery::{
    Progress, check_declarable, check_recoverable, default_message, hold_for_seizure, penalised,
    recovery_postings, reserve_absorbs, split_seizure,
};
use lr_engine::lending::repay::{
    ScheduleRow, allocate_payment, loan_after_payment, repay_response, repayment_postings,
    settlement_postings,
};
use lr_engine::lending::shared::{validate_centavos, validate_product};
use lr_engine::lending::withdraw::{Lot, check_cover, check_withdrawal, consume_lots, refund_parts, replay_of};
use lr_engine::paging::{default_page, page_window, public_page_window, total_pages};
use lr_engine::policy::{
    Band, DepositLimitTier, DepositLimits, GuarantorTier, InterestSplit, PaymentFees, PolicyParams,
    RailFees, TermRange,
};

fn sow_split() -> InterestSplit {
    let tier = |min_score, max_score, share| GuarantorTier { min_score, max_score, share };
    InterestSplit {
        platform: 10,
        reserve: 20,
        depositors: 40,
        risk_band: 30,
        guarantor_cap: 25,
        guarantor_tiers: vec![tier(50, 79, 10), tier(80, 104, 15), tier(105, 129, 20), tier(130, 150, 25)],
    }
}

fn params() -> PolicyParams {
    let fees = RailFees { receive_bps: 340, receive_fixed: 1_500, payout_bps: 200, payout_cap: 5_000 };
    let dtier = |min_score, max_score, per_deposit, daily, monthly, max_balance| DepositLimitTier {
        min_score, max_score, per_deposit, daily, monthly, max_balance,
    };
    PolicyParams {
        bands: vec![
            Band { min_score: 50, max_score: 69, cap: 500_000, secured_bps: 200, guarantor_bps: 600 },
            Band { min_score: 130, max_score: 150, cap: 10_000_000, secured_bps: 100, guarantor_bps: 300 },
        ],
        deposit_ltv_pct: 90,
        xlm_min_collateral_pct: 120,
        xlm_liquidation_pct: 110,
        guarantor_cap_multiple: 2,
        guarantors_max: 2,
        borrower_cover_min_pct: 50,
        term_months: TermRange { min: 3, max: 12 },
        min_deposit: 10_000,
        min_loan: 50_000,
        interest_split: sow_split(),
        deposit_limits: DepositLimits {
            tiers: vec![
                dtier(0, 69, 2_000_000, 5_000_000, 10_000_000, 20_000_000),
                dtier(70, 150, 5_000_000, 10_000_000, 25_000_000, 50_000_000),
            ],
            below_floor_pct: 50,
        },
        payment_fees: PaymentFees { paypal: fees, stripe: fees },
    }
}

fn row(id: i64, interest_due: i64, principal_due: i64) -> ScheduleRow {
    ScheduleRow { id, interest_due, interest_paid: 0, principal_due, principal_paid: 0 }
}

fn net(ps: &[Posting]) -> i64 {
    ps.iter().map(|p| p.amount).sum()
}

#[test]
fn a_payment_clears_installments_oldest_first_interest_before_principal() {
    let mut rows = vec![row(1, 2_000, 33_333), row(2, 1_333, 33_333), row(3, 667, 33_334)];
    let a = allocate_payment(&mut rows, 40_000);
    assert_eq!((a.interest, a.principal, a.excess), (3_333, 36_667, 0));
    assert_eq!((rows[0].interest_paid, rows[0].principal_paid), (2_000, 33_333));
    assert_eq!((rows[1].interest_paid, rows[1].principal_paid), (1_333, 3_334));
    // The installment still owing leaves the later one untouched.
    assert_eq!((rows[2].interest_paid, rows[2].principal_paid), (0, 0));
}

#[test]
fn an_overpayment_settles_everything_and_the_rest_is_excess() {
    let mut rows = vec![row(1, 2_000, 33_333), row(2, 1_333, 33_333), row(3, 667, 33_334)];
    let a = allocate_payment(&mut rows, 110_000);
    assert_eq!((a.interest, a.principal, a.excess), (4_000, 100_000, 6_000));
    assert!(rows.iter().all(|r| r.interest_paid == r.interest_due && r.principal_paid == r.principal_due));
    // A partly paid schedule only takes what is still owed.
    let mut rows = vec![ScheduleRow { id: 9, interest_due: 500, interest_paid: 500, principal_due: 1_000, principal_paid: 400 }];
    let a = allocate_payment(&mut rows, 1_000);
    assert_eq!((a.interest, a.principal, a.excess), (0, 600, 400));
}

#[test]
fn repayment_books_always_balance() {
    let (platform, reserve) = split_interest(3_333, &sow_split());
    assert_eq!((platform, reserve), (333, 3_000));
    let ps = repayment_postings(40_000, 36_667, platform, reserve, 0);
    assert_eq!(net(&ps), 0);
    assert_eq!(ps.len(), 4);
    assert_eq!(ps[0], Posting { account: "cash", amount: 40_000 });
    assert_eq!(ps[1], Posting { account: "loans_receivable", amount: -36_667 });
    let ps = settlement_postings(10_000, 6_000, 4_000, 0);
    assert_eq!(net(&ps), 0);
    assert_eq!(ps.len(), 3);
    assert_eq!(check_balanced(&ps), Ok(()));
    assert_eq!(check_balanced(&[Posting { account: "cash", amount: 5 }]), Err(LedgerError::Unbalanced(5)));
    assert_eq!(ledger_refusal(LedgerError::DuplicateRail), Refusal { status: 409, message: "This payment was already processed" });
    assert_eq!(ledger_refusal(LedgerError::Db).status, 500);
}

#[test]
fn the_loan_closes_only_when_principal_and_interest_are_all_paid() {
    let paid = [ScheduleRow { id: 1, interest_due: 10, interest_paid: 10, principal_due: 90, principal_paid: 90 }];
    assert_eq!(loan_after_payment(false, 90, 90, &paid), (0, true));
    assert_eq!(loan_after_payment(false, 100, 90, &paid), (10, false));
    assert_eq!(loan_after_payment(true, 0, 0, &paid), (0, false));
    let r = repay_response(100, 10, 90, 0, 0, true, false, 0);
    assert_eq!(r.loan_status, "closed");
    assert_eq!(r.message, "Loan fully repaid — collateral released; your credit score rises when the loan's term ends");
    let r = repay_response(100, 0, 0, 0, 0, false, true, 0);
    assert_eq!(r.loan_status, "reconciling");
    assert_eq!(r.message, "Arrears cleared — an administrator will confirm the settlement and restore your standing");
    assert_eq!(repay_response(100, 0, 0, 0, 0, false, true, 5).message, "Payment received and applied to your arrears");
    assert_eq!(repay_response(100, 0, 0, 0, 9, false, false, 0).loan_status, "active");
}

#[test]
fn a_settlement_makes_guarantors_whole_first_then_the_reserve() {
    let g = [
        ChargedGuarantor { amount: 50_000, refunded: 10_000, has_member: true },
        ChargedGuarantor { amount: 30_000, refunded: 0, has_member: false },
        ChargedGuarantor { amount: 20_000, refunded: 0, has_member: true },
    ];
    let r = [Absorbed { amount: 40_000, refunded: 0 }];
    let s = settle_split(&g, &r, 100_000);
    assert_eq!(s.guarantor_refunds, vec![40_000, 0, 20_000]);
    assert_eq!((s.to_guarantors, s.to_reserve, s.to_borrower), (60_000, 40_000, 0));
    let s = settle_split(&g, &r, 50_000);
    assert_eq!(s.guarantor_refunds, vec![40_000, 0, 10_000]);
    assert_eq!((s.to_guarantors, s.to_reserve, s.to_borrower), (50_000, 0, 0));
    let s = settle_split(&g, &r, 120_000);
    assert_eq!((s.to_guarantors, s.to_reserve, s.to_borrower), (60_000, 40_000, 20_000));
}

#[test]
fn only_a_running_loan_or_an_open_settlement_takes_money() {
    assert_eq!(check_payable(Some((true, "active")), 0), Ok(Payable { settling: false, arrears: 0 }));
    assert_eq!(check_payable(Some((true, "reconciling")), 700), Ok(Payable { settling: true, arrears: 700 }));
    assert_eq!(check_payable(Some((false, "active")), 0), Err(Refusal { status: 404, message: "Loan not found" }));
    assert_eq!(check_payable(None, 0).unwrap_err().status, 404);
    assert_eq!(check_payable(Some((true, "closed")), 0).unwrap_err().message, "This loan is not accepting payments");
    assert_eq!(check_payable(Some((true, "reconciling")), 0).unwrap_err().status, 409);
}

#[test]
fn reopening_and_marking_paid_follow_the_settlement_rules() {
    assert_eq!(reason_note("  borrower called  "), "borrower called");
    assert_eq!(reason_note(&"x".repeat(250)).len(), 200);
    assert_eq!(check_reopen("  ", Some(("defaulted", true)), false).unwrap_err().status, 422);
    assert_eq!(check_reopen("ok", None, false).unwrap_err().status, 404);
    assert_eq!(check_reopen("ok", Some(("active", true)), false).unwrap_err().message, "Only a defaulted loan can be reopened for settlement");
    assert_eq!(check_reopen("ok", Some(("defaulted", false)), false).unwrap_err().status, 409);
    assert_eq!(check_reopen("ok", Some(("defaulted", true)), true).unwrap_err().message, "This borrower already has an open loan or another settlement in progress");
    assert_eq!(check_reopen(" agreed ", Some(("defaulted", true)), false), Ok("agreed".to_string()));
    assert_eq!(check_mark_paid(Some("reconciling"), 0), Ok(()));
    assert_eq!(check_mark_paid(Some("reconciling"), 1).unwrap_err().status, 409);
    assert_eq!(check_mark_paid(Some("defaulted"), 0).unwrap_err().message, "Reopen the loan for settlement before marking it paid");
    let done = reconciled(Some(35), Some("locked"));
    assert_eq!((done.score, done.queued_on_chain, done.note), (Some(55), true, None));
    let done = reconciled(Some(140), Some("seized"));
    assert_eq!(done.score, Some(150));
    assert!(!done.queued_on_chain && done.note.is_some());
    assert_eq!(done.message, "Settled — the borrower's standing is restored and they can apply again");
}

#[test]
fn a_withdrawal_takes_the_oldest_lots_first() {
    assert_eq!(check_withdrawal(0, true), Err(Refusal { status: 422, message: "Invalid amount" }));
    assert_eq!(check_withdrawal(500, false).unwrap_err().status, 422);
    assert_eq!(check_withdrawal(500, true), Ok(500));
    assert_eq!(replay_of(None, 500), Ok(false));
    assert_eq!(replay_of(Some(500), 500), Ok(true));
    assert_eq!(replay_of(Some(400), 500).unwrap_err().status, 409);
    assert_eq!(check_cover(400, 1_000, 500).unwrap_err().status, 422);
    assert_eq!(check_cover(1_000, 400, 500).unwrap_err().status, 503);
    assert_eq!(check_cover(1_000, 1_000, 500), Ok(()));
    let lots = [
        Lot { amount: 3_000, proceeds: false },
        Lot { amount: 5_000, proceeds: true },
        Lot { amount: 2_000, proceeds: false },
    ];
    let c = consume_lots(&lots, 6_000);
    assert_eq!(c.changes, vec![LotChange::Remove, LotChange::Reduce(3_000), LotChange::Keep]);
    assert_eq!(c.from_proceeds, 3_000);
    assert_eq!(refund_parts(10_000, 12_000), (0, 10_000));
    assert_eq!(refund_parts(10_000, -5), (10_000, 0));
    assert_eq!(refund_parts(10_000, 4_000), (6_000, 4_000));
}

#[test]
fn an_application_is_priced_off_the_score_band() {
    let p = params();
    assert_eq!(validate_product("guarantor"), Ok("guarantor"));
    assert_eq!(validate_product("payday").unwrap_err().message, "Unknown loan product");
    assert_eq!(validate_centavos(1_000_000_000_001).unwrap_err().message, "Invalid amount");
    assert_eq!(check_terms(100_000, 2, &p).unwrap_err().message, "Term must be between 3 and 12 months");
    assert_eq!(check_terms(10_000, 6, &p).unwrap_err().message, "Amount is below the minimum loan");
    assert_eq!(check_terms(100_000, 6, &p), Ok(()));
    assert!(needs_xlm_leg("xlm_collateral", 0));
    assert!(needs_xlm_leg("guarantor", 1));
    assert!(!needs_xlm_leg("guarantor", 0));

    let t = price_application("deposit_backed", 100_000, 60, false, 0, 0, &p).unwrap();
    assert_eq!((t.rate_bps, t.cap, t.cover), (200, 500_000, None));
    assert_eq!(price_application("deposit_backed", 100_000, 60, true, 0, 0, &p).unwrap_err().status, 409);
    assert_eq!(price_application("deposit_backed", 100_000, 49, false, 0, 0, &p).unwrap_err().status, 403);
    assert_eq!(
        price_application("deposit_backed", 600_000, 60, false, 0, 0, &p).unwrap_err().message,
        "Amount exceeds your credit-score cap for this product"
    );
    let t = price_application("guarantor", 1_000_000, 60, false, 200_000, 300_000, &p).unwrap();
    assert_eq!(t.rate_bps, 600);
    assert_eq!(t.cap, 1_000_000);
    assert_eq!(
        t.cover,
        Some(CoverPlan { required: 500_000, deposit: 200_000, xlm: 300_000, total: 500_000, guarantor_gap: 500_000 })
    );
    assert_eq!(
        price_application("guarantor", 1_000_000, 60, false, 100_000, 0, &p).unwrap_err().message,
        "You must cover at least half of this loan yourself, from your own deposit or your own XLM"
    );
    assert_eq!(
        price_application("guarantor", 1_000_000, 60, false, 1_000_000, 0, &p).unwrap_err().message,
        "You're covering the whole loan yourself — apply for a deposit-backed or XLM loan instead"
    );
    assert_eq!(
        price_application("guarantor", 1_000_000, 60, false, -1, 0, &p).unwrap_err().message,
        "Your cover can't be negative or add up to more than the loan"
    );
    assert_eq!(check_invite_count(0, 2).unwrap_err().status, 422);
    assert_eq!(check_invite_count(3, 2).unwrap_err().status, 422);
    assert_eq!(check_invite_count(2, 2), Ok(()));
    assert_eq!(check_guarantor(7, 7, &[]).unwrap_err().message, "You can't guarantee your own loan");
    assert_eq!(check_guarantor(8, 7, &[3, 8]).unwrap_err().message, "Each guarantor can only be invited once");
    assert_eq!(check_guarantor(8, 7, &[3]), Ok(()));
    assert_eq!(check_pledges(499_999, 500_000).unwrap_err().status, 422);
    assert_eq!(check_pledges(500_000, 500_000), Ok(()));
    assert_eq!(collateral_ratio_bps(120), 12_000);
}

#[test]
fn a_guarantor_answer_can_sink_or_fund_the_loan() {
    assert_eq!(check_invite(None).unwrap_err().status, 404);
    assert_eq!(check_invite(Some("accepted")).unwrap_err().status, 409);
    assert_eq!(check_invite(Some("invited")), Ok(()));
    assert_eq!(check_loan_waiting(Some("active")).unwrap_err().message, "This loan is no longer waiting on guarantors");
    assert_eq!(check_loan_waiting(Some("pending")), Ok(()));
    let (dead, r) = after_decline(50_000, 100_000);
    assert!(dead);
    assert_eq!((r.status, r.loan_status.as_str(), r.message), ("declined", "declined", "Invitation declined"));
    let (dead, r) = after_decline(100_000, 100_000);
    assert!(!dead);
    assert_eq!(r.loan_status, "pending");
    let (fund, r) = after_accept(100_000, 100_000);
    assert!(fund);
    assert_eq!(r.loan_status, "active");
    let (fund, r) = after_accept(40_000, 100_000);
    assert!(!fund);
    assert_eq!(r.message, "Pledge locked — waiting on the remaining guarantors");
}

#[test]
fn the_quote_shows_every_product_and_a_schedule() {
    let p = params();
    let q = QuoteQuery { amount: Some(100_000), term_months: Some(6), product: None };
    let r = quote_for(&q, &p, 1_800, 60, 300_000, false, true);
    assert_eq!((r.score, r.band_cap, r.eligible), (60, Some(500_000), true));
    assert_eq!(r.products.len(), 3);
    let d = r.products[0];
    assert_eq!((d.product, d.eligible, d.max_amount, d.rate_bps, d.required_deposit), ("deposit_backed", true, 270_000, 200, Some(111_112)));
    let x = r.products[1];
    assert_eq!((x.product, x.eligible, x.max_amount, x.required_stroops), ("xlm_collateral", true, 500_000, Some(666_666_667)));
    let g = r.products[2];
    assert_eq!((g.product, g.max_amount, g.rate_bps, g.required_pledges), ("guarantor", 1_000_000, 600, Some(100_000)));
    let rows = r.schedule_preview.unwrap();
    assert_eq!(rows.len(), 6);
    assert_eq!((rows[5].installment, rows[5].principal_due, rows[5].interest_due), (6, 16_670, 333));
    assert_eq!(r.total_interest, Some(7_000));
    // An open loan blocks every product; no band, no products.
    let r = quote_for(&q, &p, 1_800, 60, 0, true, false);
    assert!(r.products.iter().all(|q| !q.eligible && q.reason == Some("You already have an open loan — repay it first")));
    let r = quote_for(&q, &p, 1_800, 40, 0, false, true);
    assert!(!r.eligible && r.products.is_empty() && r.schedule_preview.is_none() && r.total_interest.is_none());
}

#[test]
fn the_pool_page_adds_up() {
    let interest = InterestCollected {
        total: 0,
        payments: 0,
        parts: InterestParts { platform: 0, reserve: 0, depositors: 0, guarantor: 0, recovery_fund: 0 },
    };
    let s = pool_stats(2_000_000, 500_000, 100_000, 100_000, 700_000, 3, interest);
    assert_eq!(s.cash_available, 300_000);
    assert_eq!((s.utilization_bps, s.utilization_pct), (7_000, 70));
    assert_eq!(pool_stats(0, 0, 0, 0, 0, 0, interest).utilization_bps, 0);
    let totals = vec![("available".to_string(), 5_000), ("lent".to_string(), 2_000), ("odd".to_string(), 1)];
    let me = my_funds(&totals, 300, None, 40, 60, 2, None);
    assert_eq!((me.available, me.lent, me.collateral, me.pledged, me.score), (5_000, 2_000, 0, 0, 50));
    assert_eq!(me.interest_earned.total, 100);
    let ex = split_example(&params());
    assert_eq!(ex.interest, 2_000);
    assert_eq!(ex.no_guarantor, InterestParts { platform: 200, reserve: 400, depositors: 800, guarantor: 0, recovery_fund: 600 });
    assert_eq!(ex.tiers.len(), 4);
    assert_eq!((ex.tiers[3].parts.guarantor, ex.tiers[3].parts.recovery_fund), (500, 100));
    let limits = DepositLimitsFor { per_deposit: 2_000_000, daily: 5_000_000, monthly: 10_000_000, max_balance: 20_000_000 };
    let st = deposit_status(limits, 3_000_000, 4_000_000, 1_000_000, 0);
    assert_eq!((st.used_24h, st.used_30d, st.balance, st.allowance), (4_000_000, 5_000_000, 1_000_000, 1_000_000));
}

#[test]
fn public_views_name_guarantors_only_by_position() {
    let s = summarize(
        vec![StatusCount { status: "active".into(), count: 3 }, StatusCount { status: "closed".into(), count: 4 }],
        10, 20, 30,
    );
    assert_eq!((s.loans, s.disbursed, s.repaid, s.interest), (7, 10, 20, 30));
    let slice = |event_id, member, role: &str, amount| InterestSlice { event_id, member, role: role.into(), tier_share: Some(10), amount };
    let slices = vec![
        slice(1, 11, "depositor", 5),
        slice(1, 22, "guarantor", 7),
        slice(2, 33, "depositor", 9),
        slice(1, 33, "depositor", 4),
    ];
    let parts = InterestParts { platform: 1, reserve: 1, depositors: 9, guarantor: 7, recovery_fund: 0 };
    let v = split_view(1, 18, parts, Some(3), None, None, &slices, &[44, 22]);
    assert_eq!(v.depositors_paid, 2);
    assert_eq!(v.guarantors.len(), 1);
    assert_eq!((v.guarantors[0].position, v.guarantors[0].amount), (Some(2), 7));
    let r = recovery_view(3, "guarantor_deposit".into(), Some(22), 100, 0, None, 5, &[44, 22]);
    assert_eq!(r.guarantor, Some(2));
    let r = recovery_view(1, "borrower_deposit".into(), Some(22), 100, 0, None, 5, &[44, 22]);
    assert_eq!(r.guarantor, None);
}

#[test]
fn pages_start_at_one() {
    assert_eq!(default_page(), 1);
    assert_eq!(page_window(-3, 10), (1, 0));
    assert_eq!(page_window(3, 10), (3, 20));
    assert_eq!(public_page_window(5_000_000, 12), (1_000_000, 11_999_988));
    assert_eq!(total_pages(0, 10), 1);
    assert_eq!(total_pages(10, 10), 1);
    assert_eq!(total_pages(11, 10), 2);
}

#[test]
fn lots_are_taken_whole_oldest_first() {
    assert_eq!(fifo_changes(&[300, 500, 200], 600), vec![LotChange::Remove, LotChange::Reduce(300), LotChange::Keep]);
    assert_eq!(fifo_changes(&[300, 500], 0), vec![LotChange::Keep, LotChange::Keep]);
    let lots = [
        MemberLot { member: 9, amount: 100 },
        MemberLot { member: 4, amount: 300 },
        MemberLot { member: 9, amount: 50 },
    ];
    let groups = by_member(&lots);
    assert_eq!(groups.len(), 2);
    assert_eq!((groups[0].member, groups[0].amounts.clone()), (4, vec![300]));
    assert_eq!((groups[1].member, groups[1].amounts.clone()), (9, vec![100, 50]));
    // ₱2.25 from holdings of ₱3.00 and ₱1.50: two thirds and one third.
    let plan = funding_plan(225, &lots);
    assert_eq!(plan.len(), 2);
    assert_eq!((plan[0].member, plan[0].slice), (4, 150));
    assert_eq!((plan[1].member, plan[1].slice), (9, 75));
    assert_eq!(plan[1].changes, vec![LotChange::Reduce(75), LotChange::Keep]);
    assert!(funding_plan(0, &lots).is_empty());
    let z = seize(&lots, 350);
    assert_eq!(z.changes, vec![LotChange::Remove, LotChange::Reduce(250), LotChange::Keep]);
    assert_eq!(z.by_member, vec![(9, 100), (4, 250)]);
    assert_eq!(z.total, 350);
    let z = seize(&lots, 1_000);
    assert_eq!(z.by_member, vec![(9, 150), (4, 300)]);
    assert_eq!(z.total, 450);
}

#[test]
fn a_default_is_recovered_in_order() {
    assert_eq!(check_declarable(Some("pending")).unwrap_err().message, "Only a disbursed, running loan can be defaulted");
    assert_eq!(check_declarable(Some("active")), Ok(()));
    assert_eq!(check_recoverable(Some("active")).unwrap_err().message, "This loan is not in default");
    assert_eq!(check_recoverable(None).unwrap_err().status, 404);
    assert_eq!(penalised(60), 35);
    assert_eq!(penalised(10), 0);
    assert_eq!(split_seizure(800, 500), (500, 300));
    assert_eq!(split_seizure(300, 500), (300, 0));
    assert_eq!(hold_for_seizure(true, 10), Some(Progress { shortfall: 10, awaiting_seizure: true }));
    assert_eq!(hold_for_seizure(true, 0), None);
    assert_eq!(hold_for_seizure(false, 10), None);
    assert_eq!(reserve_absorbs(40), (40, Progress { shortfall: 0, awaiting_seizure: false }));
    let ps = recovery_postings("reserve_fund", 40);
    assert_eq!(ps, vec![Posting { account: "reserve_fund", amount: 40 }, Posting { account: "loans_receivable", amount: -40 }]);
    assert_eq!(default_message(Progress { shortfall: 0, awaiting_seizure: false }), "Default recorded and recovery settled");
}

#[test]
fn payouts_go_to_the_preferred_rail_first() {
    let d = choose_destination(false, Some("payer-1".into()), Some("acct_1".into()), true).unwrap();
    assert_eq!((d.provider, d.account.as_str()), ("paypal", "payer-1"));
    let d = choose_destination(true, Some("payer-1".into()), Some("acct_1".into()), true).unwrap();
    assert_eq!((d.provider, d.account.as_str()), ("stripe", "acct_1"));
    let d = choose_destination(true, Some("payer-1".into()), None, true).unwrap();
    assert_eq!(d.provider, "paypal");
    assert_eq!(choose_destination(false, None, None, false).unwrap_err().status, 503);
    assert_eq!(choose_destination(false, None, None, true).unwrap_err().status, 422);
    assert_eq!(note_for("returned", None).as_deref(), Some("Came back to us — you can request it again."));
    assert_eq!(note_for("failed", Some("card declined".into())).as_deref(), Some("card declined"));
    assert_eq!(note_for("paid", Some("x".into())), None);
}

#[test]
fn only_a_consistent_rulebook_is_admitted() {
    let ok = admit_policy(Some((3, params()))).unwrap();
    assert_eq!(ok.id, 3);
    assert_eq!(admit_policy(None).unwrap_err().message, "No active lending policy — run migrations");
    let mut broken = params();
    broken.interest_split.platform = 11;
    assert_eq!(admit_policy(Some((3, broken))).unwrap_err(), Refusal { status: 500, message: "Unable to load lending rules" });
    let mut gaps = params();
    gaps.deposit_limits.tiers[1].min_score = 71;
    assert_eq!(admit_policy(Some((3, gaps))).unwrap_err().status, 500);
    assert_eq!(recorded_fx(Some((1_800, 5))), Ok((1_800, 5)));
    assert_eq!(recorded_fx(None).unwrap_err().message, "No XLM/PHP rate configured");
}

#[test]
fn payouts_are_recorded_by_what_the_provider_said() {
    assert!(prefers_stripe(Some("stripe")));
    assert!(!prefers_stripe(Some("paypal")));
    assert!(!prefers_stripe(None));
    assert_eq!(check_proceeds_loan(Some((1, "active")), 1), Ok(()));
    assert_eq!(check_proceeds_loan(Some((1, "active")), 2).unwrap_err().status, 404);
    assert_eq!(check_proceeds_loan(Some((1, "closed")), 1).unwrap_err().status, 409);
    assert_eq!(check_proceeds_loan(None, 1).unwrap_err().message, "No such loan");
    let sent = submission_record(&Submitted::Accepted("B-1".to_string()));
    assert_eq!((sent.status, sent.reference.as_deref(), sent.sent_now), ("sent", Some("B-1"), true));
    let again = submission_record(&Submitted::AlreadySubmitted);
    assert_eq!(again.error.as_deref(), Some("Already submitted — reconciling"));
    let refused = submission_record(&Submitted::Refused("x".repeat(250)));
    assert_eq!(refused.status, "failed");
    assert_eq!(refused.error.unwrap().chars().count(), 200);
    let later = submission_record(&Submitted::Retryable("timeout".to_string()));
    assert_eq!((later.status, later.error.as_deref()), ("pending", Some("timeout")));
}

#[test]
fn a_member_without_a_score_row_reads_as_new() {
    let fresh = credit_score(None);
    assert_eq!((fresh.score, fresh.updated_at), (50, 0));
    let known = credit_score(Some((88, 12)));
    assert_eq!((known.score, known.updated_at), (88, 12));
}

#[test]
fn recovery_takes_the_borrowers_money_before_any_guarantors() {
    let lot = |member: u128, amount: i64| MemberLot { member, amount };
    let backing = vec![lot(1, 3_000)];
    let free = vec![lot(1, 1_000)];
    let pledged = vec![lot(7, 5_000), lot(8, 5_000)];
    // Covered by the borrower alone: nobody else is touched.
    let p = plan_recovery(3_500, &backing, &free, false, &pledged);
    assert_eq!(p.from_backing.as_ref().unwrap().total, 3_000);
    assert_eq!(p.from_free.as_ref().unwrap().total, 500);
    assert!(p.from_pledged.is_none());
    assert_eq!((p.reserve, p.progress.shortfall, p.progress.awaiting_seizure), (0, 0, false));
    // Coins still locked: the guarantors wait.
    let p = plan_recovery(9_000, &backing, &free, true, &pledged);
    assert!(p.from_pledged.is_none());
    assert_eq!((p.progress.shortfall, p.progress.awaiting_seizure), (5_000, true));
    // Past the guarantors, the reserve absorbs the rest.
    let p = plan_recovery(20_000, &backing, &free, false, &pledged);
    let g = p.from_pledged.as_ref().unwrap();
    assert_eq!(g.total, 10_000);
    assert_eq!(g.by_member, vec![(7, 5_000), (8, 5_000)]);
    assert_eq!((p.reserve, p.progress.shortfall), (6_000, 0));
    // Nothing owed: nothing taken.
    let p = plan_recovery(0, &backing, &free, true, &pledged);
    assert!(p.from_backing.is_none() && p.from_free.is_none() && p.from_pledged.is_none());
}
