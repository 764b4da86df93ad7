//! Reading the vault's movements back against the database.

use lr_engine::lending::drift::{call_check, loan_ref, movement_check};
use lr_engine::lending::drift::{Check, UNREACHABLE, judged, lock_check, position_consistent, short, xlm};

#[test]
fn negative_amounts_keep_their_sign_on_both_sides_of_the_point() {
    assert_eq!(xlm(0), "0.0000000 XLM");
    assert_eq!(xlm(-1), "0.-000001 XLM");
    assert_eq!(xlm(-12_345_678), "-1.-2345678 XLM");
    assert_eq!(xlm(10_000_000), "1.0000000 XLM");
}

#[test]
fn hashes_are_shortened_to_ten_bytes() {
    assert_eq!(short("abcdef0123456789"), "abcdef0123");
    assert_eq!(short("abc"), "abc");
}

#[test]
fn an_unreachable_chain_stops_the_report_and_anything_else_is_a_finding() {
    assert_eq!(judged(Err(UNREACHABLE), "lock", "abcdef0123456789"), Err(UNREACHABLE.to_string()));
    assert_eq!(
        judged(Err("not found"), "release", "abcdef0123456789"),
        Ok(Check::Problem("release abcdef0123: not found".to_string()))
    );
    assert_eq!(judged(Ok(Check::Verified("ok".into())), "lock", "h"), Ok(Check::Verified("ok".into())));
}

#[test]
fn a_position_agrees_with_what_was_done_to_it() {
    assert!(position_consistent("locked", 0, 0, true, 0));
    assert!(!position_consistent("locked", 1, 0, true, 1));
    assert!(position_consistent("released", 1, 0, true, 1));
    assert!(position_consistent("seized", 0, 1, true, 1));
    assert!(!position_consistent("seized", 1, 1, true, 2));
    assert!(position_consistent("pending", 0, 0, false, 0));
    assert!(!position_consistent("cancelled", 0, 0, true, 0));
    assert!(!position_consistent("weird", 0, 0, false, 0));
}

#[test]
fn a_lock_is_verified_only_for_the_recorded_stroops() {
    assert_eq!(
        lock_check("abcdef0123456789", 5_489_478_500, 5_489_478_500),
        Check::Verified("lock        abcdef0123  548.9478500 XLM into the vault".to_string())
    );
    assert_eq!(
        lock_check("abcdef0123456789", 1, 2),
        Check::Problem("lock abcdef0123 moved 0.0000001 XLM, the database says 0.0000002 XLM".to_string())
    );
}

#[test]
fn moments_print_to_the_minute_in_utc() {
    assert_eq!(lr_engine::lending::drift::when(0), "1970-01-01 00:00 UTC");
    assert_eq!(lr_engine::lending::drift::when(1_700_000_000), "2023-11-14 22:13 UTC");
    assert_eq!(lr_engine::lending::drift::when(i64::MAX), "?");
}

#[test]
fn vault_movements_are_judged_against_the_chain() {
    let ok = movement_check("release", "abcdefghijklmnop", Some(10_000_000), Some("GDEP"), None, 10_000_000, "GDEP");
    assert_eq!(ok, Check::Verified(format!("{:<11} {}  {} out of the vault", "release", "abcdefghij", "1.0000000 XLM")));
    let wrong_amount = movement_check("seize", "abcdefghijklmnop", Some(5), None, Some("GTRE"), 10_000_000, "GTRE");
    assert_eq!(
        wrong_amount,
        Check::Problem("seize abcdefghij moved 1.0000000 XLM, the database says 0.0000005 XLM".to_string())
    );
    let elsewhere = movement_check("seize", "abcdefghijklmnop", None, None, Some("GTREASURYXYZ"), 10_000_000, "GOTHERPLACE123");
    assert_eq!(elsewhere, Check::Problem("seize abcdefghij went to GOTHERPLAC…, not the treasury".to_string()));
    assert_eq!(
        call_check("mark_defaulted", "abc"),
        Check::Verified("mark_defaulted abc  recorded on chain".to_string())
    );
}

#[test]
fn a_loan_is_named_the_way_the_public_records_name_it() {
    let id = uuid::Uuid::parse_str("958177f02f7e4b20a3c5892097349930").unwrap();
    assert_eq!(loan_ref(id.as_u128()), "958177F0");
}
