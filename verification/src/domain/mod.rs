//! Pure lending rules: no database, no clock, no network. Every function
//! here is a plain function of integers and the rulebook.

pub mod rounding;
pub mod sums;
pub mod shares;
pub mod capped;
pub mod loans;
pub mod schedule;
pub mod fees;
pub mod rates;
pub mod limits;
pub mod interest;
pub mod laws;

pub use self::rounding::{div_toward_zero, half_even, round_half_even, trunc_div};
pub use self::shares::apportion;
pub use self::capped::apportion_capped;
pub use self::loans::{
    CENTAVOS_PER_XLM_UNIT, CoverError, CoverPlan, MONTH_SECS, band_for, cap_for,
    collateral_value_centavos, max_borrow_against_deposit, plan_cover, rate_bps,
    required_borrower_cover, required_collateral_stroops, required_deposit_collateral,
};
pub use self::schedule::{
    Installment, build_schedule, funding_to_release, next_installment_due, pool_funded_amount,
};
pub use self::fees::{
    check_payment_fees, gross_up, payout_charge, payout_fee, receive_fee_estimate,
};
pub use self::rates::{RATE_SCALE, agree_on_rate, derive_php_per_xlm, median, scaled_to_centavos};
pub use self::limits::{
    DepositLimitsFor, check_deposit_limits, deposit_allowance, deposit_limits_for,
};
pub use self::interest::{
    BookedInterest, GuarantorStake, InterestParts, book_interest, check_interest_split,
    guarantor_tier_for, split_interest, split_interest_parts,
};
