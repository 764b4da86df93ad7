//! The library's stated properties on concrete values, including inputs near
//! the edges of the integers they are stated for.

use lr_engine::domain::{
    collateral_value_centavos, gross_up, max_borrow_against_deposit, median, receive_fee_estimate,
    required_collateral_stroops, required_deposit_collateral,
};
use lr_engine::lending::checkout::{PaymentPurpose, loan_checkout_plan};
use lr_engine::lending::ledger::Posting;
use lr_engine::lending::repay::{ScheduleRow, decide_repayment};
use lr_engine::policy::{GuarantorTier, InterestSplit, RailFees};
use lr_engine::score::{
    GUARANTOR_CLAIMED, LOAN_DEFAULTED, REPAID_TERM_COMPLETE, outcome, project_rises, score_rise_at,
};

fn split() -> InterestSplit {
    InterestSplit {
        platform: 10,
        reserve: 20,
        depositors: 40,
        risk_band: 30,
        guarantor_cap: 25,
        guarantor_tiers: vec![GuarantorTier { min_score: 50, max_score: 150, share: 10 }],
    }
}

fn two_installments() -> Vec<ScheduleRow> {
    vec![
        ScheduleRow { id: 1, interest_due: 1_000, interest_paid: 0, principal_due: 10_000, principal_paid: 0 },
        ScheduleRow { id: 2, interest_due: 800, interest_paid: 0, principal_due: 10_000, principal_paid: 0 },
    ]
}

#[test]
fn a_deposit_too_large_for_a_hundredfold_still_round_trips() {
    let amount: i64 = 100_000_000_000_000_000;
    let deposit = required_deposit_collateral(amount, 90);
    assert_eq!(deposit, 111_111_111_111_111_112);
    assert_eq!(max_borrow_against_deposit(deposit, 90), amount);
    assert!(max_borrow_against_deposit(deposit - 1, 90) < amount);
    assert_eq!(required_deposit_collateral(i64::MAX, 100), i64::MAX);
    assert_eq!(max_borrow_against_deposit(i64::MAX, 100), i64::MAX);
}

#[test]
fn xlm_collateral_covers_a_large_loan_at_a_high_rate() {
    let stroops = required_collateral_stroops(2_000_000_000_000, 100, 1_000_000_000);
    assert_eq!(stroops, 20_000_000_000);
    assert_eq!(collateral_value_centavos(stroops, 1_000_000_000), 2_000_000_000_000);
    assert!(collateral_value_centavos(stroops - 1, 1_000_000_000) < 2_000_000_000_000);
}

#[test]
fn outcomes_at_the_edges_of_a_sixteen_bit_score() {
    assert_eq!(outcome(LOAN_DEFAULTED, -32_743).score_to, 0);
    assert_eq!(outcome(LOAN_DEFAULTED, -32_743).delta, 32_743);
    assert_eq!(outcome(GUARANTOR_CLAIMED, -32_717).delta, 32_767);
    assert_eq!(outcome(REPAID_TERM_COMPLETE, 32_762).score_to, 150);
    assert_eq!(outcome("no_such_reason", i16::MIN).delta, 0);
    let rises = project_rises(1_000, 2);
    assert_eq!(rises[0].score_to, 150);
    assert_eq!(rises[1].score_from, 150);
}

#[test]
fn no_smaller_charge_leaves_the_grossed_up_installment() {
    let fees = RailFees { receive_bps: 340, receive_fixed: 1_500, payout_bps: 200, payout_cap: 5_000 };
    let applies: i64 = 100_000;
    let (total, fee) = gross_up(applies, &fees);
    assert_eq!(total, applies + fee);
    assert!(total - receive_fee_estimate(total, &fees) >= applies);
    for t in (total - 500)..total {
        assert!(t - receive_fee_estimate(t, &fees) < applies, "charge {t} would have sufficed");
    }
}

#[test]
fn the_median_ignores_the_order_of_its_values() {
    assert_eq!(median(&[5, 1, 9, 3]), Some(4));
    assert_eq!(median(&[9, 3, 1, 5]), Some(4));
    assert_eq!(median(&[3, 9, 5, 1]), median(&[1, 3, 5, 9]));
}

#[test]
fn a_loan_checkout_carries_the_hyphenated_loan_id() {
    let plan = loan_checkout_plan("repay", 0, Some(0x0123_4567_89ab_cdef_0123_4567_89ab_cdef)).unwrap();
    assert_eq!(plan.purpose, PaymentPurpose::Repay);
    assert_eq!(plan.success_path, "/pay?loan=01234567-89ab-cdef-0123-456789abcdef");
    assert_eq!(plan.cancel_path, "/pay?loan=01234567-89ab-cdef-0123-456789abcdef");
    assert_eq!(
        loan_checkout_plan("repay", 0, None).unwrap_err().message,
        "Which loan is this repaying?"
    );
    assert_eq!(loan_checkout_plan("deposit", 5_000, None).unwrap().success_path, "/lending");
}

#[test]
fn a_repayment_in_full_closes_the_loan_and_schedules_the_rise() {
    let mut schedule = two_installments();
    let d = decide_repayment(&mut schedule, 22_300, 20_000, &split(), &[1_000_000, 2_000_000], 1_500_000);
    assert_eq!(d.response.amount_received, 22_300);
    assert_eq!(d.response.interest_paid, 1_800);
    assert_eq!(d.response.principal_paid, 20_000);
    assert_eq!(d.response.excess_to_deposit, 500);
    assert_eq!(d.response.principal_outstanding, 0);
    assert_eq!(d.response.loan_status, "closed");
    assert_eq!(
        d.response.message,
        "Loan fully repaid — collateral released; your credit score rises when the loan's term ends"
    );
    assert_eq!(d.score_rise_at, Some(2_000_000));
    assert_eq!(
        d.postings,
        vec![
            Posting { account: "cash", amount: 22_300 },
            Posting { account: "loans_receivable", amount: -20_000 },
            Posting { account: "platform_earnings", amount: -180 },
            Posting { account: "reserve_fund", amount: -1_620 },
            Posting { account: "member_deposits", amount: -500 },
        ]
    );
    assert!(schedule.iter().all(|r| r.interest_paid == r.interest_due && r.principal_paid == r.principal_due));
}

#[test]
fn a_partial_repayment_pays_the_oldest_installment_and_moves_no_score() {
    let mut schedule = two_installments();
    let d = decide_repayment(&mut schedule, 5_000, 20_000, &split(), &[1_000_000, 2_000_000], 1_500_000);
    assert_eq!(d.response.interest_paid, 1_000);
    assert_eq!(d.response.principal_paid, 4_000);
    assert_eq!(d.response.excess_to_deposit, 0);
    assert_eq!(d.response.principal_outstanding, 16_000);
    assert_eq!(d.response.loan_status, "active");
    assert_eq!(d.response.message, "Payment received and applied");
    assert_eq!(d.score_rise_at, None);
    assert_eq!(schedule[0].principal_paid, 4_000);
    assert_eq!(schedule[1], two_installments()[1]);
    let total: i64 = d.postings.iter().map(|p| p.amount).sum();
    assert_eq!(total, 0);
}

#[test]
fn an_early_full_repayment_earns_its_rise_at_the_term_end() {
    assert_eq!(score_rise_at(&[1_000, 2_000], 1_500), 2_000);
    assert_eq!(score_rise_at(&[1_000, 2_000], 2_500), 2_500);
}
