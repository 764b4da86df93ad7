//! The public record of every loan.

use lr_engine::lending::drift::xlm;
use lr_engine::lending::public::{position_of, product_clause, status_clause};

#[test]
fn amounts_read_as_xlm_to_the_stroop() {
    assert_eq!(xlm(5_489_478_500), "548.9478500 XLM");
    assert_eq!(xlm(1), "0.0000001 XLM");
}

#[test]
fn guarantors_are_numbered_in_asking_order() {
    let (a, b, c) = (3u128, 1u128, 2u128);
    let asked = [a, b, c];
    let position = |id| position_of(&asked, id).unwrap();
    assert_eq!((position(a), position(b), position(c)), (1, 2, 3));
}

#[test]
fn filters_only_ever_pick_a_fixed_fragment() {
    assert_eq!(status_clause("'; DROP TABLE loans; --"), "TRUE");
    assert_eq!(product_clause("guarantor OR 1=1"), "TRUE");
    assert_eq!(status_clause("defaulted"), "l.status IN ('defaulted', 'reconciling', 'reconciled')");
}
