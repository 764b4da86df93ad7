//! A borrower's own loans as their screens show them: the pinned schedule,
//! the collateral position with its health at the live rate, and the
//! guarantor roster.

use vstd::prelude::*;

use crate::domain::{collateral_value_centavos, div_toward_zero, trunc_div};
use crate::domain::loans::collateral_value;
use crate::text::str_eq;

verus! {

/// One installment of a loan's pinned schedule.
#[derive(Clone, Debug)]
pub struct ScheduleView {
    pub installment: i16,
    pub due_at: i64,
    pub principal_due: i64,
    pub interest_due: i64,
    pub principal_paid: i64,
    pub interest_paid: i64,
    pub status: String,
}

/// A named guarantor's pledge on a loan.
#[derive(Clone, Debug)]
pub struct GuarantorView {
    pub username: String,
    pub pledge_amount: i64,
    pub status: String,
}

/// An XLM position as the borrower's loan screen shows it.
#[derive(Clone, Debug)]
pub struct CollateralView {
    pub wallet_address: String,
    pub required_stroops: i64,
    /// The principal these coins stand behind.
    pub principal_centavos: i64,
    pub locked_stroops: i64,
    pub status: String,
    /// Collateral value as a percentage of outstanding principal, at the live
    /// rate.
    pub health_pct: Option<i64>,
    /// Health has fallen below the liquidation threshold on a locked position.
    pub liquidatable: bool,
    pub priced_centavos_per_xlm: Option<i64>,
    pub priced_at: Option<i64>,
    pub priced_usd_per_xlm_e8: Option<i64>,
    pub priced_usd_php_centavos: Option<i64>,
    pub collateral_ratio_bps: Option<i32>,
}

/// The health of a position: the value of the locked coins at the live rate
/// as a percentage of what is still owed, truncated; none while nothing is
/// owed or nothing is locked.
pub open spec fn health_of(locked_stroops: i64, fx: i64, outstanding: i64) -> Option<i64> {
    if outstanding > 0 && locked_stroops > 0 {
        Some(trunc_div(collateral_value(locked_stroops, fx) * 100, outstanding as int) as i64)
    } else {
        None
    }
}

/// Whether the value of the coins times a hundred fits in the engine's integers.
pub open spec fn health_fits(locked_stroops: i64, fx: i64) -> bool {
    locked_stroops > 0 ==> i64::MIN < collateral_value(locked_stroops, fx) * 100 <= i64::MAX
}

/// Health of a position at the live rate.
pub fn health_pct(locked_stroops: i64, fx: i64, outstanding: i64) -> (r: Option<i64>)
    requires
        health_fits(locked_stroops, fx),
    ensures
        r == health_of(locked_stroops, fx, outstanding),
{
    if outstanding > 0 && locked_stroops > 0 {
        let value = collateral_value_centavos(locked_stroops, fx);
        Some(div_toward_zero((value * 100) as i128, outstanding as i128) as i64)
    } else {
        None
    }
}

/// A position can be liquidated while it is locked and its health is below
/// the policy's threshold.
pub open spec fn liquidatable_at(status: Seq<char>, health: Option<i64>, liquidation_pct: i64) -> bool {
    status == "locked"@ && (match health {
        Some(h) => h < liquidation_pct,
        None => false,
    })
}

/// Whether a position is open to liquidation.
pub fn is_liquidatable(status: &str, health: Option<i64>, liquidation_pct: i64) -> (r: bool)
    ensures
        r == liquidatable_at(status@, health, liquidation_pct),
{
    if !str_eq(status, "locked") {
        return false;
    }
    match health {
        Some(h) => h < liquidation_pct,
        None => false,
    }
}

/// One `xlm_collateral` row, as read.
#[derive(Clone, Debug)]
pub struct PositionRow {
    pub wallet_address: String,
    pub required_stroops: i64,
    pub principal_centavos: i64,
    pub locked_stroops: i64,
    pub status: String,
    pub priced_centavos_per_xlm: Option<i64>,
    pub priced_at: Option<i64>,
    pub priced_usd_per_xlm_e8: Option<i64>,
    pub priced_usd_php_centavos: Option<i64>,
    pub collateral_ratio_bps: i32,
}

/// Assembles the collateral view of a loan: the row as read, with health at
/// the live rate against what is still owed, and the liquidation flag.
pub fn collateral_view(row: PositionRow, outstanding: i64, fx: i64, liquidation_pct: i64) -> (r: CollateralView)
    requires
        health_fits(row.locked_stroops, fx),
    ensures
        r.wallet_address@ == row.wallet_address@,
        r.required_stroops == row.required_stroops,
        r.principal_centavos == row.principal_centavos,
        r.locked_stroops == row.locked_stroops,
        r.status@ == row.status@,
        r.health_pct == health_of(row.locked_stroops, fx, outstanding),
        r.liquidatable == liquidatable_at(row.status@, health_of(row.locked_stroops, fx, outstanding), liquidation_pct),
        r.priced_centavos_per_xlm == row.priced_centavos_per_xlm,
        r.priced_at == row.priced_at,
        r.priced_usd_per_xlm_e8 == row.priced_usd_per_xlm_e8,
        r.priced_usd_php_centavos == row.priced_usd_php_centavos,
        r.collateral_ratio_bps == Some(row.collateral_ratio_bps),
{
    let health = health_pct(row.locked_stroops, fx, outstanding);
    let liquidatable = is_liquidatable(row.status.as_str(), health, liquidation_pct);
    CollateralView {
        wallet_address: row.wallet_address,
        required_stroops: row.required_stroops,
        principal_centavos: row.principal_centavos,
        locked_stroops: row.locked_stroops,
        status: row.status,
        health_pct: health,
        liquidatable,
        priced_centavos_per_xlm: row.priced_centavos_per_xlm,
        priced_at: row.priced_at,
        priced_usd_per_xlm_e8: row.priced_usd_per_xlm_e8,
        priced_usd_php_centavos: row.priced_usd_php_centavos,
        collateral_ratio_bps: Some(row.collateral_ratio_bps),
    }
}

/// Health of a position when the value of its coins times a hundred fits
/// the engine's integers; none when it does not.
pub fn health_checked(locked_stroops: i64, fx: i64, outstanding: i64) -> (r: Option<Option<i64>>)
    ensures
        r == (if health_fits(locked_stroops, fx) {
            Some(health_of(locked_stroops, fx, outstanding))
        } else {
            None
        }),
{
    if locked_stroops > 0 {
        let value = collateral_value_centavos(locked_stroops, fx);
        let scaled = value as i128 * 100;
        if scaled <= i64::MIN as i128 || scaled > i64::MAX as i128 {
            return None;
        }
    }
    Some(health_pct(locked_stroops, fx, outstanding))
}

} // verus!
