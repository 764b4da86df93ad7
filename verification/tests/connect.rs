//! Linking a payout account.

use lr_engine::accounts::connect::{app_url, check_claim, new_state};
use lr_engine::accounts::paypal::{CallbackQuery, link_fields};
use lr_engine::accounts::stripe;

#[test]
fn a_state_token_is_sixty_four_lowercase_hex_digits() {
    let a = new_state();
    let b = new_state();
    assert_eq!(a.len(), 64);
    assert!(a.chars().all(|c| c.is_ascii_digit() || ('a'..='f').contains(&c)));
    assert_ne!(a, b);
}

#[test]
fn members_return_to_the_first_configured_client() {
    assert_eq!(app_url("", "paypal=connected"), "http://localhost:5173/settings?paypal=connected");
    assert_eq!(
        app_url(" , https://app.example.ph/ ,https://other.ph", "stripe=connected"),
        "https://app.example.ph/settings?stripe=connected"
    );
    assert_eq!(app_url("https://a.ph//", "x=1"), "https://a.ph/settings?x=1");
}

#[test]
fn a_state_is_claimed_once_and_before_it_expires() {
    assert_eq!(check_claim(None, 100), Err("badstate"));
    assert_eq!(check_claim(Some(100), 100), Err("expired"));
    assert_eq!(check_claim(Some(101), 100), Ok(()));
}

#[test]
fn a_callback_needs_its_code_and_state() {
    let q = |code: Option<&str>, state: Option<&str>, error: Option<&str>| CallbackQuery {
        code: code.map(String::from),
        state: state.map(String::from),
        error: error.map(String::from),
    };
    assert_eq!(link_fields(q(Some("c"), Some("s"), None)), Ok(("c".to_string(), "s".to_string())));
    assert_eq!(link_fields(q(Some("c"), Some("s"), Some("denied"))), Err("declined"));
    assert_eq!(link_fields(q(None, Some("s"), None)), Err("nocode"));
    assert_eq!(link_fields(q(Some("c"), None, None)), Err("nostate"));
    assert_eq!(stripe::onboarding_state(stripe::CallbackQuery { state: None }), Err("nostate"));
    assert_eq!(stripe::onboarding_state(stripe::CallbackQuery { state: Some("t".into()) }), Ok("t".to_string()));
}
