//! The money rules of a community lending pool, verified.

use vstd::prelude::*;

pub mod accounts;
pub mod domain;
pub mod kyc;
pub mod lending;
pub mod paging;
pub mod policy;
pub mod pricing;
pub mod score;
pub mod text;

verus! {

/// A refusal to act, as an HTTP status code and a message for the member.
#[derive(Clone, Copy, Debug, PartialEq, Eq)]
pub struct Refusal {
    pub status: u16,
    pub message: &'static str,
}

} // verus!
