//! The decisions the lending endpoints make between reading the database and
//! writing it back: pure functions of the rows they locked.

pub mod waterfall;
pub mod ledger;
pub mod repay;
pub mod reconcile;
pub mod shared;
pub mod withdraw;
pub mod apply;
pub mod guarantors;
pub mod quote;
pub mod public;
pub mod pool;
pub mod payout;
pub mod drift;
pub mod lots;
pub mod recovery;
pub mod laws;
pub mod rails;
pub mod deposit;
pub mod cancel;
pub mod actions;
pub mod admin;
pub mod loans;
pub mod custody;
pub mod checkout;
pub mod intents;
pub mod admin_loans;
pub mod webhook;
pub mod collateral;
