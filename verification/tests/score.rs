//! What each way a loan can end does to a member's score.

use lr_engine::score::{
    DEFAULT_SETTLED, GUARANTOR_CLAIMED, GUARANTOR_CLAIM_SETTLED, LOAN_DEFAULTED,
    REPAID_TERM_COMPLETE, SCORE_MAX, SCORE_MIN, outcome,
};

/// Each outcome lands where its writer would put it, including at the edges
/// where the writer clamps.
#[test]
fn outcomes_move_the_score_the_way_their_writers_do() {
    let to = |code, score| outcome(code, score).score_to;
    assert_eq!(to(REPAID_TERM_COMPLETE, 60), 65);
    assert_eq!(to(REPAID_TERM_COMPLETE, 148), SCORE_MAX);
    // A default is the one movement that can leave the band.
    assert_eq!(to(LOAN_DEFAULTED, 60), 35);
    assert_eq!(to(LOAN_DEFAULTED, 10), 0);
    assert_eq!(to(DEFAULT_SETTLED, 35), 55);
    assert_eq!(to(GUARANTOR_CLAIMED, 80), 70);
    assert_eq!(to(GUARANTOR_CLAIMED, 55), SCORE_MIN);
    assert_eq!(to(GUARANTOR_CLAIM_SETTLED, 70), 75);
}

/// The delta is what would really move, not the nominal amount.
#[test]
fn a_clamped_outcome_reports_the_clamped_delta() {
    assert_eq!(outcome(REPAID_TERM_COMPLETE, 148).delta, 2);
    assert_eq!(outcome(GUARANTOR_CLAIMED, 55).delta, -5);
    assert_eq!(outcome(LOAN_DEFAULTED, 60).delta, -25);
}
