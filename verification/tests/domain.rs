//! The lending rules, on the rulebook the pool publishes.

use lr_engine::domain::{
    CoverError, GuarantorStake, InterestParts, RATE_SCALE, agree_on_rate,
    apportion, apportion_capped, band_for, book_interest, build_schedule, cap_for,
    check_deposit_limits, check_interest_split, check_payment_fees, collateral_value_centavos,
    deposit_allowance, deposit_limits_for, derive_php_per_xlm, funding_to_release, gross_up,
    guarantor_tier_for, max_borrow_against_deposit, median, next_installment_due, payout_charge,
    payout_fee, plan_cover, pool_funded_amount, rate_bps, receive_fee_estimate,
    required_borrower_cover, required_collateral_stroops, required_deposit_collateral,
    round_half_even, scaled_to_centavos, split_interest_parts,
};
use lr_engine::domain::DepositLimitsFor;
use lr_engine::policy::{
    Band, DepositLimitTier, DepositLimits, GuarantorTier, InterestSplit, PaymentFees,
    PolicyParams, RailFees, TermRange,
};

/// The SOW's published split and tier table, verbatim.
fn sow_split() -> InterestSplit {
    let tier = |min_score, max_score, share| GuarantorTier { min_score, max_score, share };
    InterestSplit {
        platform: 10,
        reserve: 20,
        depositors: 40,
        risk_band: 30,
        guarantor_cap: 25,
        guarantor_tiers: vec![
            tier(50, 79, 10),
            tier(80, 104, 15),
            tier(105, 129, 20),
            tier(130, 150, 25),
        ],
    }
}

fn params() -> PolicyParams {
    PolicyParams {
        bands: vec![
            Band { min_score: 50, max_score: 69, cap: 500_000, secured_bps: 200, guarantor_bps: 600 },
            Band { min_score: 130, max_score: 150, cap: 10_000_000, secured_bps: 100, guarantor_bps: 300 },
        ],
        deposit_ltv_pct: 90,
        xlm_min_collateral_pct: 120,
        xlm_liquidation_pct: 110,
        guarantor_cap_multiple: 2,
        guarantors_max: 2,
        borrower_cover_min_pct: 50,
        term_months: TermRange { min: 3, max: 12 },
        min_deposit: 10_000,
        min_loan: 50_000,
        interest_split: sow_split(),
        deposit_limits: sow_deposit_limits(),
        payment_fees: PaymentFees { paypal: paypal_ph(), stripe: paypal_ph() },
    }
}

/// PayPal Philippines' published rates: 3.40% + ₱15 in, 2% capped at ₱50 out.
fn paypal_ph() -> RailFees {
    RailFees { receive_bps: 340, receive_fixed: 1_500, payout_bps: 200, payout_cap: 5_000 }
}

fn sow_deposit_limits() -> DepositLimits {
    let tier = |min_score, max_score, per_deposit, daily, monthly, max_balance| DepositLimitTier {
        min_score, max_score, per_deposit, daily, monthly, max_balance,
    };
    DepositLimits {
        tiers: vec![
            tier(0, 69, 2_000_000, 5_000_000, 10_000_000, 20_000_000),
            tier(70, 150, 5_000_000, 10_000_000, 25_000_000, 50_000_000),
        ],
        below_floor_pct: 50,
    }
}


#[test]
fn banker_rounding_is_half_to_even() {
    assert_eq!(round_half_even(25, 10), 2); // 2.5 -> 2
    assert_eq!(round_half_even(35, 10), 4); // 3.5 -> 4
    assert_eq!(round_half_even(26, 10), 3);
    assert_eq!(round_half_even(24, 10), 2);
}

#[test]
fn bands_map_scores_to_caps_and_rates() {
    let p = params();
    assert!(band_for(49, &p).is_none());
    let b = band_for(50, &p).unwrap();
    assert_eq!((b.cap, b.secured_bps, b.guarantor_bps), (500_000, 200, 600));
    assert_eq!(cap_for("guarantor", b, &p), 1_000_000); // 2x with guarantors
    assert_eq!(cap_for("deposit_backed", b, &p), 500_000);
    assert_eq!(rate_bps("guarantor", b), 600);
    assert_eq!(rate_bps("xlm_collateral", b), 200);
}

#[test]
fn deposit_ltv_round_trips_conservatively() {
    // Borrow 90% of what you must freeze — freezing then borrowing the
    // stated max never exceeds the LTV.
    for amount in [1, 99, 100, 4_999, 500_000, 123_457] {
        let req = required_deposit_collateral(amount, 90);
        assert!(max_borrow_against_deposit(req, 90) >= amount);
        assert!(max_borrow_against_deposit(req - 1, 90) < amount);
    }
}

#[test]
fn xlm_collateral_requirement_covers_120_pct() {
    let rate = 1_800; // ₱18.00 / XLM
    let amount = 500_000; // ₱5,000 loan
    let stroops = required_collateral_stroops(amount, 120, rate);
    let value = collateral_value_centavos(stroops, rate);
    assert!(value >= amount * 120 / 100);
    // and not absurdly more than one stroop over
    assert!(collateral_value_centavos(stroops - 1, rate) < 600_000 + rate);
}

#[test]
fn a_claim_is_shared_in_proportion_to_what_each_pledged() {
    // The case the sprint plan names: a partial claim across two unequal
    // pledges. Age-ordered seizure gave one guarantor the whole ₱2,000 and
    // the other nothing; proportion gives 3:2.
    assert_eq!(apportion(200_000, &[300_000, 200_000]), vec![120_000, 80_000]);

    // Equal pledges split equally.
    assert_eq!(apportion(100_000, &[250_000, 250_000]), vec![50_000, 50_000]);

    // A claim that exhausts everything still lands on the pledges exactly.
    assert_eq!(apportion(500_000, &[300_000, 200_000]), vec![300_000, 200_000]);

    // One guarantor.
    assert_eq!(apportion(123_456, &[500_000]), vec![123_456]);
}

#[test]
fn apportioned_shares_always_sum_to_the_total() {
    // Nothing divides evenly here — the residual has to go somewhere, and
    // "somewhere" must never be "lost".
    for total in [1i64, 2, 7, 99, 101, 1_000, 33_333, 1_000_001] {
        for weights in [
            vec![300_000i64, 400_000],
            vec![1, 1, 1],
            vec![7, 11, 13],
            vec![999_999, 1],
            vec![100_000, 100_000, 100_000],
        ] {
            let shares = apportion(total, &weights);
            assert_eq!(
                shares.iter().sum::<i64>(),
                total,
                "total {total} across {weights:?} lost or invented centavos"
            );
            // Nobody is charged a negative amount.
            assert!(shares.iter().all(|s| *s >= 0), "negative share for {weights:?}");
        }
    }
}

#[test]
fn the_residual_lands_on_the_largest_pledge() {
    // ₱10.00 across 1:1:1 is ₱3.33 each with a centavo left over. The
    // weights are equal, so the earliest wins the tie and the result is
    // still deterministic.
    assert_eq!(apportion(1000, &[100, 100, 100]), vec![334, 333, 333]);

    // With an unambiguous largest, the residual goes there rather than to
    // whoever happens to be first.
    let shares = apportion(1000, &[100, 900]);
    assert_eq!(shares.iter().sum::<i64>(), 1000);
    assert_eq!(shares, vec![100, 900]);
}

#[test]
fn nothing_to_share_or_nobody_to_share_by() {
    assert_eq!(apportion(0, &[100, 200]), vec![0, 0]);
    assert_eq!(apportion(-5, &[100, 200]), vec![0, 0]);
    // Pledges that sum to nothing can't absorb a claim — the caller falls
    // through to the reserve fund rather than dividing by zero.
    assert_eq!(apportion(1000, &[0, 0]), vec![0, 0]);
    assert!(apportion(1000, &[]).is_empty());
}

#[test]
fn borrower_cover_floor_rounds_towards_the_borrower() {
    // Half of ₱10,000 is exact.
    assert_eq!(required_borrower_cover(1_000_000, 50), 500_000);
    // An odd centavo rounds UP, so the floor is never undershot.
    assert_eq!(required_borrower_cover(1_000_001, 50), 500_001);
    assert_eq!(required_borrower_cover(333, 50), 167);
    // The parameter is honoured, not assumed to be 50.
    assert_eq!(required_borrower_cover(1_000_000, 60), 600_000);
}

#[test]
fn cover_can_be_deposit_xlm_or_a_mix_of_both() {
    let amount = 1_000_000; // ₱10,000, so the floor is ₱5,000
    // All deposit.
    let all_deposit = plan_cover(amount, 500_000, 0, 50).unwrap();
    assert_eq!(all_deposit.guarantor_gap, 500_000);
    // All XLM.
    let all_xlm = plan_cover(amount, 0, 500_000, 50).unwrap();
    assert_eq!(all_xlm.guarantor_gap, 500_000);
    // A mix that meets the floor exactly.
    let mixed = plan_cover(amount, 200_000, 300_000, 50).unwrap();
    assert_eq!(mixed.total, 500_000);
    assert_eq!(mixed.guarantor_gap, 500_000);
    // Covering MORE than the floor shrinks the guarantors' share.
    let generous = plan_cover(amount, 400_000, 300_000, 50).unwrap();
    assert_eq!(generous.guarantor_gap, 300_000);
}

#[test]
fn cover_below_the_floor_is_refused() {
    let amount = 1_000_000;
    // One centavo short, from either leg or both.
    assert_eq!(
        plan_cover(amount, 499_999, 0, 50),
        Err(CoverError::BelowFloor { required: 500_000, offered: 499_999 })
    );
    assert_eq!(
        plan_cover(amount, 0, 499_999, 50),
        Err(CoverError::BelowFloor { required: 500_000, offered: 499_999 })
    );
    assert_eq!(
        plan_cover(amount, 250_000, 249_999, 50),
        Err(CoverError::BelowFloor { required: 500_000, offered: 499_999 })
    );
    // Nothing offered at all is the same refusal, not a special case.
    assert!(matches!(plan_cover(amount, 0, 0, 50), Err(CoverError::BelowFloor { .. })));
}

#[test]
fn cover_cannot_exceed_the_loan_or_leave_no_gap() {
    let amount = 1_000_000;
    // Fully self-backed: this is a deposit or collateral loan, not a
    // guarantor one, and is refused rather than issued with no guarantors.
    assert_eq!(plan_cover(amount, 1_000_000, 0, 50), Err(CoverError::NoGapLeft));
    // Past the principal entirely.
    assert_eq!(plan_cover(amount, 900_000, 200_000, 50), Err(CoverError::Invalid));
    // Negative legs never reach the arithmetic.
    assert_eq!(plan_cover(amount, -1, 600_000, 50), Err(CoverError::Invalid));
    assert_eq!(plan_cover(amount, 600_000, -1, 50), Err(CoverError::Invalid));
    // And a leg large enough to overflow the sum is refused, not wrapped.
    assert_eq!(plan_cover(amount, i64::MAX, i64::MAX, 50), Err(CoverError::Invalid));
}

#[test]
fn the_xlm_leg_is_over_collateralized_at_the_policy_ratio() {
    // The borrower carries ₱5,000 of a ₱10,000 loan on XLM alone. The
    // coins locked must be worth 120% of THAT LEG — ₱6,000 — not 120% of
    // the whole loan, and not merely the leg itself.
    let rate = 1_800; // ₱18.00 / XLM
    let plan = plan_cover(1_000_000, 0, 500_000, 50).unwrap();
    let stroops = required_collateral_stroops(plan.xlm, 120, rate);
    let value = collateral_value_centavos(stroops, rate);
    assert!(value >= 600_000);
    assert!(value < 600_000 + rate); // and not materially more
}

#[test]
fn derives_the_php_rate_through_the_dollar() {
    // $0.39 per XLM at ₱58.50 per $ = ₱22.815 per XLM -> ₱22.82 (half-even
    // lands on the even centavo at exactly half; here it rounds up).
    let usd_per_xlm = 39 * RATE_SCALE / 100;
    let php_per_usd = 585 * RATE_SCALE / 10;
    let scaled = derive_php_per_xlm(usd_per_xlm, php_per_usd);
    assert_eq!(scaled, 2_281_500_000);
    assert_eq!(scaled_to_centavos(scaled), 2282);
    // and the identity leg: anything times ₱1.00/$ is itself
    assert_eq!(derive_php_per_xlm(usd_per_xlm, RATE_SCALE), usd_per_xlm);
}

#[test]
fn median_is_the_middle_not_the_mean() {
    assert_eq!(median(&[]), None);
    assert_eq!(median(&[7]), Some(7));
    assert_eq!(median(&[9, 1, 5]), Some(5));
    assert_eq!(median(&[4, 2]), Some(3));
    // one absurd outlier cannot drag the middle
    assert_eq!(median(&[2280, 2282, 2284, 1]), Some(2281));
}

#[test]
fn agreement_needs_a_quorum_that_survives_the_deviation_band() {
    let band = 500; // 5%
    // three feeds within a whisker of each other -> their middle
    assert_eq!(agree_on_rate(&[2280, 2282, 2284], 2, band), Some(2282));
    // one feed is never enough, however plausible
    assert_eq!(agree_on_rate(&[2282], 2, band), None);
    // an out-of-band quote is dropped and the rest still agree
    assert_eq!(agree_on_rate(&[2280, 2282, 9000], 2, band), Some(2281));
    // two feeds that disagree wildly leave no quorum -> refuse to price
    assert_eq!(agree_on_rate(&[1000, 9000], 2, band), None);
    // exactly at the band edge is kept (2282 * 5% = 114.1)
    assert_eq!(agree_on_rate(&[2282, 2282, 2396], 3, band), Some(2282));
    assert_eq!(agree_on_rate(&[2282, 2282, 2397], 3, band), None);
}

#[test]
fn schedule_ties_to_the_centavo() {
    let principal = 1_000_000; // ₱10,000
    let rows = build_schedule(principal, 175, 7, 0);
    assert_eq!(rows.len(), 7);
    assert_eq!(rows.iter().map(|r| r.principal_due).sum::<i64>(), principal);
    // reducing balance: first month interest on full principal
    assert_eq!(rows[0].interest_due, round_half_even(principal as i128 * 175, 10_000));
    // interest strictly decreases as principal amortizes
    assert!(rows.windows(2).all(|w| w[0].interest_due >= w[1].interest_due));
    assert!(rows.last().unwrap().interest_due > 0);
}

#[test]
fn the_published_rulebook_passes_its_own_checks() {
    assert_eq!(check_interest_split(&params()), Ok(()));
}

#[test]
fn a_malformed_split_is_refused() {
    let broken = |f: fn(&mut InterestSplit)| {
        let mut p = params();
        f(&mut p.interest_split);
        check_interest_split(&p)
    };
    // Fixed shares that don't sum to 100 invent or lose centavos.
    assert!(broken(|s| s.depositors = 39).is_err());
    assert!(broken(|s| { s.platform = -10; s.depositors = 60 }).is_err());
    // A cap past the band would push the recovery fund negative.
    assert!(broken(|s| s.guarantor_cap = 31).is_err());
    // A tier above the cap.
    assert!(broken(|s| s.guarantor_tiers[3].share = 26).is_err());
    // A gap between tiers leaves some score with no share.
    assert!(broken(|s| s.guarantor_tiers[1].min_score = 81).is_err());
    // Better reputation never earns less.
    assert!(broken(|s| s.guarantor_tiers[2].share = 12).is_err());
    // Tiers that stop short of the top band.
    assert!(broken(|s| s.guarantor_tiers[3].max_score = 149).is_err());
    assert!(broken(|s| s.guarantor_tiers.clear()).is_err());
}

#[test]
fn the_sow_worked_example_to_the_centavo() {
    // ₱1,000 at 2%/mo — the first payment's interest is ₱20.00.
    let s = sow_split();
    let parts = |g| split_interest_parts(2_000, &s, g);
    let row = |guarantor, recovery_fund| InterestParts {
        platform: 200, reserve: 400, depositors: 800, guarantor, recovery_fund,
    };
    assert_eq!(parts(None), row(0, 600));
    assert_eq!(parts(Some(10)), row(200, 400));
    assert_eq!(parts(Some(15)), row(300, 300));
    assert_eq!(parts(Some(20)), row(400, 200));
    assert_eq!(parts(Some(25)), row(500, 100));
    // A share past the cap is held at the cap.
    assert_eq!(parts(Some(40)), row(500, 100));
}

#[test]
fn four_way_parts_sum_back_and_never_go_negative() {
    let s = sow_split();
    for interest in (0..5_000).chain([99_999, 1_000_001]) {
        for g in [None, Some(10), Some(15), Some(20), Some(25)] {
            let p = split_interest_parts(interest, &s, g);
            let all = [p.platform, p.reserve, p.depositors, p.guarantor, p.recovery_fund];
            assert_eq!(all.iter().sum::<i64>(), interest, "{interest} @ {g:?}");
            assert!(all.iter().all(|v| *v >= 0), "negative part {p:?} for {interest} @ {g:?}");
        }
    }
}

const NO_GUARANTORS: &[GuarantorStake] = &[];

fn stake(pledge: i64, score: i16) -> GuarantorStake {
    GuarantorStake { pledge, score }
}

#[test]
fn depositors_share_pro_rata_across_the_whole_pool() {
    // ₱20.00 of interest; the pool holds ₱3,000, ₱3,000 and ₱2,000. Every
    // depositor earns on their balance, not just whoever funded the loan.
    let booked = book_interest(2_000, &sow_split(), &[300_000, 300_000, 200_000], NO_GUARANTORS);
    assert_eq!(
        booked.parts,
        InterestParts { platform: 200, reserve: 400, depositors: 800, guarantor: 0, recovery_fund: 600 }
    );
    assert_eq!(booked.to_depositors, vec![300, 300, 200]);
    assert!(booked.to_guarantors.is_empty());
}

#[test]
fn guarantor_loans_reproduce_the_published_example() {
    let s = sow_split();
    let pool = [400_000, 400_000];
    // One guarantor backing ₱500 at each tier: ₱2 / ₱3 / ₱4 / ₱5 of ₱20.
    for (score, paid, recovery) in [(50, 200, 400), (80, 300, 300), (105, 400, 200), (130, 500, 100)] {
        let booked = book_interest(2_000, &s, &pool, &[stake(50_000, score)]);
        assert_eq!(booked.parts.guarantor, paid, "score {score}");
        assert_eq!(booked.parts.recovery_fund, recovery, "score {score}");
        assert_eq!(booked.to_guarantors, vec![paid]);
        // Depositors' fixed 40% never moves with the guarantor's tier.
        assert_eq!(booked.parts.depositors, 800);
        assert_eq!(booked.to_depositors, vec![400, 400]);
    }
}

#[test]
fn two_guarantors_earn_their_own_tier_on_their_own_pledge() {
    // Equal pledges at 10% and 25%: 17.5% between them = ₱3.50, split 1:2.5.
    let booked = book_interest(2_000, &sow_split(), &[100_000], &[stake(25_000, 50), stake(25_000, 130)]);
    assert_eq!(booked.parts.guarantor, 350);
    assert_eq!(booked.to_guarantors, vec![100, 250]);
    assert_eq!(booked.guarantor_tiers, vec![10, 25]);
    assert_eq!(booked.parts.recovery_fund, 250);
    // A 3:1 pledge split at the same tier: shared 3:1.
    let booked = book_interest(2_000, &sow_split(), &[100_000], &[stake(30_000, 90), stake(10_000, 90)]);
    assert_eq!(booked.parts.guarantor, 300);
    assert_eq!(booked.to_guarantors, vec![225, 75]);
}

#[test]
fn a_guarantor_below_every_tier_earns_nothing_and_the_fund_keeps_it() {
    let booked = book_interest(2_000, &sow_split(), &[100_000], &[stake(50_000, 30)]);
    assert_eq!(booked.parts.guarantor, 0);
    assert_eq!(booked.to_guarantors, vec![0]);
    assert_eq!(booked.guarantor_tiers, vec![0]);
    assert_eq!(booked.parts.recovery_fund, 600);
}

#[test]
fn with_no_balances_the_depositor_share_stays_in_the_reserve() {
    for balances in [&[][..], &[0, 0][..]] {
        let booked = book_interest(2_000, &sow_split(), balances, NO_GUARANTORS);
        assert_eq!(
            booked.parts,
            InterestParts { platform: 200, reserve: 1_200, depositors: 0, guarantor: 0, recovery_fund: 600 }
        );
        assert!(booked.to_depositors.iter().all(|a| *a == 0));
    }
}

#[test]
fn tiny_interest_still_ties_out() {
    // A centavo or two across three depositors and two guarantors: every
    // part rounds, nothing is lost.
    for interest in 0..=25 {
        let booked = book_interest(interest, &sow_split(), &[1, 1, 1], &[stake(1, 50), stake(1, 150)]);
        let p = booked.parts;
        assert_eq!(p.platform + p.reserve + p.depositors + p.guarantor + p.recovery_fund, interest);
        assert_eq!(booked.to_depositors.iter().sum::<i64>(), p.depositors);
        assert_eq!(booked.to_guarantors.iter().sum::<i64>(), p.guarantor);
    }
}

/// Deterministic pseudo-random numbers for the sweeps.
fn lcg(seed: u64) -> impl FnMut(u64) -> u64 {
    let mut seed = seed;
    move |max: u64| {
        seed = seed.wrapping_mul(6_364_136_223_846_793_005).wrapping_add(1_442_695_040_888_963_407);
        (seed >> 33) % max.max(1)
    }
}

#[test]
fn every_repayment_shape_balances_the_books() {
    // Interest from a partial payment up to a multi-installment payoff,
    // 0–40 depositors of wildly different sizes, 0–2 guarantors at any
    // score including below every tier.
    let split = sow_split();
    let mut next = lcg(0x5EED);
    for _ in 0..20_000 {
        let interest = next(5_000_000) as i64;
        let balances: Vec<i64> = (0..next(41)).map(|_| next(10_000_000) as i64).collect();
        let guarantors: Vec<GuarantorStake> =
            (0..next(3)).map(|_| stake(1 + next(5_000_000) as i64, next(151) as i16)).collect();

        let booked = book_interest(interest, &split, &balances, &guarantors);
        let p = booked.parts;
        let all = [p.platform, p.reserve, p.depositors, p.guarantor, p.recovery_fund];
        assert_eq!(all.iter().sum::<i64>(), interest, "parts must sum to the interest");
        assert!(all.iter().all(|v| *v >= 0), "negative part {p:?}");
        assert_eq!(booked.to_depositors.len(), balances.len());
        assert_eq!(booked.to_depositors.iter().sum::<i64>(), p.depositors, "depositor lots must equal their credit");
        assert_eq!(booked.to_guarantors.len(), guarantors.len());
        assert_eq!(booked.to_guarantors.iter().sum::<i64>(), p.guarantor, "guarantor lots must equal their credit");
        assert!(booked.to_depositors.iter().chain(&booked.to_guarantors).all(|v| *v >= 0));
        assert!(p.guarantor <= round_half_even(interest as i128 * split.guarantor_cap as i128, 100) + 1);
        // The postings a repayment writes: cash in, and every credit.
        let principal = next(10_000_000) as i64;
        let excess = next(100_000) as i64;
        let cash = principal + interest + excess;
        let credits = principal + p.platform + p.reserve + p.recovery_fund + p.depositors + p.guarantor + excess;
        assert_eq!(cash, credits, "unbalanced repayment");
    }
}

#[test]
fn funding_is_taken_pro_rata_and_never_past_a_balance() {
    // ₱4,000 from ₱3,000 / ₱3,000 / ₱2,000 available: half of each.
    assert_eq!(apportion_capped(400_000, &[300_000, 300_000, 200_000]), vec![150_000, 150_000, 100_000]);
    // Asking for everything takes everything, exactly.
    assert_eq!(apportion_capped(800_000, &[300_000, 300_000, 200_000]), vec![300_000, 300_000, 200_000]);
    // Asking for more than exists takes only what exists.
    assert_eq!(apportion_capped(900_000, &[300_000, 200_000]), vec![300_000, 200_000]);
    // The case half-even + residual-to-largest gets wrong: one centavo short
    // of the whole pool must not push anyone over their own balance.
    let caps = [3, 3, 3];
    let shares = apportion_capped(8, &caps);
    assert_eq!(shares.iter().sum::<i64>(), 8);
    assert!(shares.iter().zip(caps).all(|(s, c)| *s <= c));
    assert!(apportion_capped(0, &[5, 5]).iter().all(|s| *s == 0));
    assert!(apportion_capped(10, &[]).is_empty());
}

#[test]
fn capped_apportioning_never_loses_or_overdraws_a_centavo() {
    let mut next = lcg(0xCA95);
    for _ in 0..20_000 {
        let caps: Vec<i64> = (0..1 + next(40)).map(|_| next(5_000_000) as i64).collect();
        let sum: i64 = caps.iter().sum();
        let total = next(sum as u64 + 10) as i64;
        let shares = apportion_capped(total, &caps);
        assert_eq!(shares.iter().sum::<i64>(), total.min(sum), "{total} across {caps:?}");
        assert!(shares.iter().zip(&caps).all(|(s, c)| *s >= 0 && s <= c), "overdrawn: {shares:?} of {caps:?}");
    }
}

#[test]
fn deposit_backing_decides_what_the_pool_funds() {
    // Deposit-backed: ₱4,500 against ₱5,000 of the borrower's own deposit.
    assert_eq!(pool_funded_amount(450_000, 500_000), 0);
    // XLM collateral: no deposit behind it, so the pool funds it all.
    assert_eq!(pool_funded_amount(450_000, 0), 450_000);
    // Guarantor: ₱3,000 of own deposit cover on a ₱10,000 loan.
    assert_eq!(pool_funded_amount(1_000_000, 300_000), 700_000);
}

#[test]
fn locked_funding_unlocks_with_the_balance_and_all_at_the_end() {
    // ₱7,000 locked on ₱10,000 owed; ₱2,500 of principal comes back.
    assert_eq!(funding_to_release(700_000, 250_000, 1_000_000), 175_000);
    // Nothing paid, nothing released.
    assert_eq!(funding_to_release(700_000, 0, 1_000_000), 0);
    // The final payment releases whatever is left, rounding crumbs included.
    assert_eq!(funding_to_release(123_457, 333, 333), 123_457);
    // Walking a loan to zero in uneven payments never strands a centavo.
    let mut next = lcg(0x10C4);
    for _ in 0..2_000 {
        let principal = 1 + next(10_000_000) as i64;
        let mut locked = next(principal as u64 + 1) as i64;
        let mut outstanding = principal;
        while outstanding > 0 {
            let paid = 1 + next(outstanding as u64) as i64;
            let released = funding_to_release(locked, paid, outstanding);
            assert!((0..=locked).contains(&released));
            locked -= released;
            outstanding -= paid;
        }
        assert_eq!(locked, 0, "funding left locked on a repaid loan");
    }
}

#[test]
fn fee_estimates_match_the_published_rates() {
    let f = paypal_ph();
    // ₱20,000 in: 3.40% = ₱680 + ₱15 = ₱695.
    assert_eq!(receive_fee_estimate(2_000_000, &f), 69_500);
    // ₱5,000 out with the ₱50 cap: ₱4,950 sent, ₱50 charged on top.
    assert_eq!(payout_fee(500_000, &f), 5_000);
    // Never the whole payout.
    assert_eq!(payout_fee(1, &f), 0);
}

#[test]
fn a_payout_plus_its_charge_is_exactly_the_claim() {
    // What the provider's test mode charged: 2% of what it sent, no cap.
    let uncapped = RailFees { receive_bps: 340, receive_fixed: 1_500, payout_bps: 200, payout_cap: 0 };
    // ₱20,000 claimed: ₱19,607.84 sent, ₱392.16 charged, ₱20,000.00 in all.
    let fee = payout_fee(2_000_000, &uncapped);
    assert_eq!(fee, 39_216);
    assert_eq!(2_000_000 - fee + payout_charge(2_000_000 - fee, &uncapped), 2_000_000);
    // The withdrawal that lost money: sending ₱19,950 costs ₱399 on top.
    assert_eq!(payout_charge(1_995_000, &uncapped), 39_900);

    let mut next = lcg(0x0A70);
    for _ in 0..20_000 {
        let amount = 2 + next(100_000_000) as i64;
        let fees = RailFees {
            receive_bps: 0,
            receive_fixed: 0,
            payout_bps: next(1_000) as i64,
            payout_cap: if next(2) == 0 { 0 } else { next(20_000) as i64 },
        };
        let fee = payout_fee(amount, &fees);
        let sent = amount - fee;
        assert!(sent >= 1 && fee >= 0);
        // Sent plus the provider's charge fits inside the claim...
        assert!(sent + payout_charge(sent, &fees) <= amount, "overdrawn at {amount}");
        // ...and nothing more could have been sent.
        assert!(sent == amount || sent + 1 + payout_charge(sent + 1, &fees) > amount, "sent too little at {amount}");
    }
}

#[test]
fn a_grossed_up_repayment_leaves_exactly_the_installment() {
    let f = paypal_ph();
    // A ₱35,333.00 installment.
    let (total, fee) = gross_up(3_533_300, &f);
    assert_eq!(total, 3_533_300 + fee);
    assert_eq!(total - receive_fee_estimate(total, &f), 3_533_300);
    // And for every amount, the total is the smallest that covers it.
    let mut next = lcg(0xFEE5);
    for _ in 0..20_000 {
        let applies = 1 + next(50_000_000) as i64;
        let fees = RailFees {
            receive_bps: next(1_000) as i64,
            receive_fixed: next(5_000) as i64,
            payout_bps: 0,
            payout_cap: 0,
        };
        let (total, fee) = gross_up(applies, &fees);
        assert_eq!(total, applies + fee);
        assert!(total - receive_fee_estimate(total, &fees) >= applies, "short: {applies} {total}");
        assert!(total - 1 - receive_fee_estimate(total - 1, &fees) < applies, "not smallest: {applies} {total}");
    }
}

#[test]
fn a_bad_fee_table_is_refused() {
    let mut p = params();
    assert_eq!(check_payment_fees(&p), Ok(()));
    p.payment_fees.paypal.receive_bps = 10_000;
    assert!(check_payment_fees(&p).is_err());
    let mut p = params();
    p.payment_fees.stripe.payout_cap = -1;
    assert!(check_payment_fees(&p).is_err());
}

#[test]
fn a_repayment_is_exactly_the_next_unpaid_installment() {
    // (installment, interest_due, interest_paid, principal_due, principal_paid)
    let rows = [
        (1, 2_000, 2_000, 33_333, 33_333), // paid
        (2, 1_333, 500, 33_333, 0),        // interest part-paid
        (3, 667, 0, 33_334, 0),
    ];
    assert_eq!(next_installment_due(&rows), Some((2, 833 + 33_333)));
    // Everything paid: nothing is due, so nothing may be paid.
    assert_eq!(next_installment_due(&[(1, 10, 10, 90, 90)]), None);
    assert_eq!(next_installment_due(&[]), None);
}

fn limits_params(tiers: Vec<DepositLimitTier>, below_floor_pct: i64) -> PolicyParams {
    let mut p = params();
    p.deposit_limits = DepositLimits { tiers, below_floor_pct };
    p
}

fn dtier(min_score: i16, max_score: i16, per_deposit: i64, daily: i64, monthly: i64, max_balance: i64) -> DepositLimitTier {
    DepositLimitTier { min_score, max_score, per_deposit, daily, monthly, max_balance }
}

#[test]
fn below_fifty_gets_half_of_the_lowest_tier() {
    let p = limits_params(
        vec![dtier(50, 69, 2_000_001, 5_000_000, 10_000_000, 20_000_000), dtier(70, 150, 5_000_000, 10_000_000, 25_000_000, 50_000_000)],
        50,
    );
    assert_eq!(check_deposit_limits(&p), Ok(()));
    let entry = deposit_limits_for(50, &p);
    assert_eq!(entry, DepositLimitsFor { per_deposit: 2_000_001, daily: 5_000_000, monthly: 10_000_000, max_balance: 20_000_000 });
    // Score 49 and score 0 alike: half, rounded down (never above half).
    for score in [49, 30, 0] {
        assert_eq!(
            deposit_limits_for(score, &p),
            DepositLimitsFor { per_deposit: 1_000_000, daily: 2_500_000, monthly: 5_000_000, max_balance: 10_000_000 }
        );
    }
    assert_eq!(deposit_limits_for(150, &p).per_deposit, 5_000_000);
}

#[test]
fn a_malformed_deposit_table_is_refused() {
    let ok = || vec![dtier(50, 69, 100, 200, 300, 400), dtier(70, 150, 100, 200, 300, 400)];
    assert_eq!(check_deposit_limits(&limits_params(ok(), 50)), Ok(()));
    let broken = |f: fn(&mut Vec<DepositLimitTier>)| {
        let mut t = ok();
        f(&mut t);
        check_deposit_limits(&limits_params(t, 50))
    };
    assert!(broken(|t| t.clear()).is_err());
    assert!(broken(|t| t[1].min_score = 71).is_err()); // gap
    assert!(broken(|t| t[1].max_score = 149).is_err()); // stops short of 150
    assert!(broken(|t| t[0].per_deposit = 250).is_err()); // per_deposit > daily
    assert!(broken(|t| t[0].daily = 350).is_err()); // daily > monthly
    assert!(broken(|t| t[1].monthly = 250).is_err()); // falls as score rises
    assert!(broken(|t| t[0].max_balance = 0).is_err());
    assert!(check_deposit_limits(&limits_params(ok(), 0)).is_err());
    assert!(check_deposit_limits(&limits_params(ok(), 101)).is_err());
}

#[test]
fn the_allowance_is_the_tightest_remaining_limit() {
    let l = DepositLimitsFor { per_deposit: 2_000_000, daily: 5_000_000, monthly: 10_000_000, max_balance: 20_000_000 };
    assert_eq!(deposit_allowance(l, 0, 0, 0), 2_000_000); // per deposit binds
    assert_eq!(deposit_allowance(l, 4_000_000, 4_000_000, 0), 1_000_000); // 24h binds
    assert_eq!(deposit_allowance(l, 0, 9_500_000, 0), 500_000); // 30 days binds
    assert_eq!(deposit_allowance(l, 0, 0, 19_900_000), 100_000); // balance binds
    assert_eq!(deposit_allowance(l, 6_000_000, 0, 0), 0); // already over: nothing, never negative
    assert_eq!(deposit_allowance(l, 0, 0, 25_000_000), 0); // interest carried them past the cap
}

#[test]
fn scores_map_to_the_sow_guarantor_tiers() {
    let s = sow_split();
    let share = |score| guarantor_tier_for(score, &s).map(|t| t.share);
    assert_eq!(share(49), None);
    assert_eq!(share(50), Some(10));
    assert_eq!(share(79), Some(10));
    assert_eq!(share(80), Some(15));
    assert_eq!(share(104), Some(15));
    assert_eq!(share(105), Some(20));
    assert_eq!(share(129), Some(20));
    assert_eq!(share(130), Some(25));
    assert_eq!(share(150), Some(25));
    assert_eq!(share(151), None);
}

#[test]
fn rounding_never_pushes_a_part_below_zero() {
    let thirds = InterestSplit {
        platform: 33,
        reserve: 33,
        depositors: 33,
        risk_band: 1,
        guarantor_cap: 1,
        guarantor_tiers: vec![],
    };
    // Each fixed share rounds 0.66 up to 1: the third is held to what is left.
    let p = split_interest_parts(2, &thirds, None);
    assert_eq!(p, InterestParts { platform: 1, reserve: 1, depositors: 0, guarantor: 0, recovery_fund: 0 });
    for interest in 0..500i64 {
        for share in [None, Some(1), Some(10)] {
            let p = split_interest_parts(interest, &thirds, share);
            assert_eq!(p.platform + p.reserve + p.depositors + p.guarantor + p.recovery_fund, interest);
            assert!(p.platform >= 0 && p.reserve >= 0 && p.depositors >= 0);
            assert!(p.guarantor >= 0 && p.recovery_fund >= 0);
        }
    }
}

#[test]
fn an_over_allocation_is_taken_back_without_a_negative_share() {
    // Five equal weights over 3 centavos each round 0.6 up to 1: two too many.
    assert_eq!(apportion(3, &[1, 1, 1, 1, 1]), vec![0, 0, 1, 1, 1]);
    for total in 0..60i64 {
        for weights in [vec![1i64, 1, 1, 1, 1], vec![1, 1, 1], vec![5, 1, 1, 1, 1, 1, 1], vec![2, 3, 3, 3]] {
            let shares = apportion(total, &weights);
            assert_eq!(shares.iter().sum::<i64>(), total);
            assert!(shares.iter().all(|s| *s >= 0), "negative share for {total} over {weights:?}");
        }
    }
}

#[test]
fn depositor_slices_are_never_negative() {
    // 40% of 8 is 3 centavos, over five equal balances.
    let b = book_interest(8, &sow_split(), &[1, 1, 1, 1, 1], &[]);
    assert_eq!(b.to_depositors.iter().sum::<i64>(), b.parts.depositors);
    assert!(b.to_depositors.iter().all(|s| *s >= 0));
    let p = b.parts;
    assert_eq!(p.platform + p.reserve + p.depositors + p.guarantor + p.recovery_fund, 8);
}

#[test]
fn payout_fees_cover_claims_up_to_the_top_of_the_range() {
    let fees = RailFees { receive_bps: 340, receive_fixed: 1_500, payout_bps: 200, payout_cap: 0 };
    let amount = i64::MAX - 2;
    let fee = payout_fee(amount, &fees);
    let sent = amount - fee;
    assert!(fee >= 0);
    assert!(sent as i128 + payout_charge(sent, &fees) as i128 <= amount as i128);
    assert!(sent as i128 + 1 + payout_charge(sent + 1, &fees) as i128 > amount as i128);
}
