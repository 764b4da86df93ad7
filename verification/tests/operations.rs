//! The decisions around disbursal, the vault outbox, payment intents and
//! the operator's screens, on concrete values.

use lr_engine::Refusal;
use lr_engine::domain::CoverPlan;
use lr_engine::lending::apply::{XlmLeg, apply_answer};
use lr_engine::score::score_rise_at;
use lr_engine::kyc::{check_existing, check_id_free, document_path};
use lr_engine::lending::drift::{LockStep, VaultEvent, chain_finding, event_loan, inconsistency_finding, lock_step, loan_finding, undone_finding, unmatched_events};
use lr_engine::lending::loans::health_checked;
use lr_engine::domain::limits::DepositLimitsFor;
use lr_engine::lending::drift::report_code;
use lr_engine::lending::intents::{Finish, deposit_headroom, finish_for, stripe_session_outcome};
use lr_engine::lending::actions::{confirmed_message, destination_check, prepare_verdict, prepared_message, seizure_value};
use lr_engine::lending::admin::{FxRateInput, InterestRecipient, RecipientRow, file_fx_rate, recipients_for, search_term};
use lr_engine::lending::admin_loans::{
    CollateralRow, PaymentRow, PayoutRow, VaultRow, admin_where_clause, movements_for,
};
use lr_engine::lending::checkout::{PaymentPurpose, cancel_purpose, checkout_plan, order_plan};
use lr_engine::lending::collateral::{check_loan_awaiting, check_locked_enough, check_position_pending, lock_rail_ref};
use lr_engine::lending::custody::{ActionRow, PriceSourceView, custody_health, movements, sources_used};
use lr_engine::lending::drift::{DriftAction, position_consistent, tally_actions};
use lr_engine::lending::intents::{
    Claim, ClaimStep, IntentRow, amount_due, check_allowance, check_minimum, check_not_capturing, claim_step,
    expires_at, is_stale, refund_record, stripe_pages,
};
use lr_engine::lending::ledger::Posting;
use lr_engine::lending::loans::{PositionRow, collateral_view, health_pct, is_liquidatable};
use lr_engine::lending::shared::{
    backing_complete, disbursal_postings, liquidity_check, proceeds_postings, proceeds_rail_ref,
};
use lr_engine::lending::webhook::{EventObject, WebhookAction, webhook_action};
use lr_engine::score::{
    DEFAULT_SETTLED, GUARANTOR_CLAIMED, GUARANTOR_CLAIM_SETTLED, LOAN_DEFAULTED, REPAID_TERM_COMPLETE, outcome,
    rise_due, score_write,
};

#[test]
fn backing_waits_on_every_leg() {
    assert!(!backing_complete(true, "deposit_backed", 1000, 0, 0));
    assert!(backing_complete(false, "xlm_collateral", 1000, 0, 0));
    assert!(backing_complete(false, "guarantor", 1000, 1000, 0));
    assert!(!backing_complete(false, "guarantor", 1000, 400, 599));
    assert!(backing_complete(false, "guarantor", 1000, 400, 600));
}

#[test]
fn disbursal_needs_lendable_cash() {
    assert_eq!(liquidity_check(10_000, 2_000, 3_000, 5_000), Ok(()));
    let err = liquidity_check(10_000, 2_000, 3_001, 5_000).unwrap_err();
    assert_eq!(err.status, 503);
    assert!(err.message.starts_with("The pool doesn't have enough liquidity"));
}

#[test]
fn disbursal_and_proceeds_books_balance() {
    let d = disbursal_postings(75_000);
    assert_eq!(
        d,
        vec![
            Posting { account: "loans_receivable", amount: 75_000 },
            Posting { account: "member_deposits", amount: -75_000 },
        ]
    );
    let p = proceeds_postings(75_000);
    assert_eq!(p[0], Posting { account: "payout_payable", amount: 75_000 });
    assert_eq!(p.iter().map(|x| x.amount).sum::<i64>(), 0);
    assert_eq!(proceeds_rail_ref("abc"), "loan_proceeds:abc");
}

#[test]
fn outbox_prepares_in_order() {
    assert_eq!(prepare_verdict("seize", "queued", false), Ok(true));
    assert_eq!(prepare_verdict("release", "queued", false), Ok(false));
    assert_eq!(prepare_verdict("release", "done", false).unwrap_err().status, 409);
    let err = prepare_verdict("seize", "queued", true).unwrap_err();
    assert!(err.message.starts_with("An earlier movement"));
    assert!(prepared_message(true).starts_with("Sign the seizure"));
}

#[test]
fn seizures_are_valued_at_the_pinned_rate() {
    // 2 XLM at 18 pesos each.
    assert_eq!(seizure_value("seize", Some(20_000_000), Some(1_800)), Ok(Some(3_600)));
    assert_eq!(seizure_value("release", Some(20_000_000), None), Ok(None));
    assert_eq!(seizure_value("seize", Some(20_000_000), None).unwrap_err().status, 409);
    assert_eq!(destination_check("seize", Some("GOTHER"), "GTREASURY").unwrap_err().status, 422);
    assert_eq!(destination_check("seize", Some("GTREASURY"), "GTREASURY"), Ok(()));
    assert_eq!(destination_check("release", Some("GOTHER"), "GTREASURY"), Ok(()));
    assert_eq!(confirmed_message("mark_repaid"), "Outcome recorded on-chain");
}

#[test]
fn filed_rates_are_bounded() {
    let ok = file_fx_rate(FxRateInput { centavos_per_xlm: 1_800 }).unwrap();
    assert_eq!(ok.centavos_per_xlm, 1_800);
    assert_eq!(file_fx_rate(FxRateInput { centavos_per_xlm: 0 }), Err(Refusal { status: 422, message: "Invalid rate" }));
    assert!(file_fx_rate(FxRateInput { centavos_per_xlm: 100_000_001 }).is_err());
    assert!(file_fx_rate(FxRateInput { centavos_per_xlm: 100_000_000 }).is_ok());
}

#[test]
fn search_terms_are_trimmed_and_cut() {
    assert_eq!(search_term("  ana  "), "ana");
    let long = "x".repeat(70);
    assert_eq!(search_term(&long).chars().count(), 64);
}

#[test]
fn recipients_follow_their_repayment() {
    let row = |event_id: i64, name: &str, amount: i64| RecipientRow {
        event_id,
        recipient: InterestRecipient {
            username: name.to_string(),
            role: "depositor".to_string(),
            weight: 100,
            tier_share: None,
            amount,
        },
    };
    let rows = vec![row(1, "ana", 5), row(2, "ben", 7), row(1, "cy", 3)];
    let r = recipients_for(1, &rows);
    assert_eq!(r.len(), 2);
    assert_eq!(r[0].username, "ana");
    assert_eq!(r[1].amount, 3);
}

#[test]
fn health_is_value_over_outstanding() {
    assert_eq!(health_pct(20_000_000, 1_800, 3_000), Some(120));
    assert_eq!(health_pct(20_000_000, 1_800, 0), None);
    assert!(is_liquidatable("locked", Some(109), 110));
    assert!(!is_liquidatable("released", Some(50), 110));
    let view = collateral_view(
        PositionRow {
            wallet_address: "GABC".to_string(),
            required_stroops: 25_000_000,
            principal_centavos: 3_000,
            locked_stroops: 20_000_000,
            status: "locked".to_string(),
            priced_centavos_per_xlm: Some(1_800),
            priced_at: Some(7),
            priced_usd_per_xlm_e8: None,
            priced_usd_php_centavos: None,
            collateral_ratio_bps: 12_000,
        },
        3_000,
        1_800,
        130,
    );
    assert_eq!(view.health_pct, Some(120));
    assert!(view.liquidatable);
    assert_eq!(view.collateral_ratio_bps, Some(12_000));
    assert_eq!(custody_health(0, 1_800, 3_000), (None, None));
    assert_eq!(custody_health(20_000_000, 1_800, 0), (Some(3_600), None));
}

#[test]
fn custody_lists_the_lock_then_the_outbox() {
    let actions = vec![
        ActionRow {
            action: "mark_repaid".to_string(),
            status: "done".to_string(),
            tx_hash: Some("h2".to_string()),
            created_at: 10,
            done_at: Some(12),
            quote_php_per_xlm_centavos: None,
            quote_usd_per_xlm_e8: None,
            quote_php_per_usd_centavos: None,
        },
        ActionRow {
            action: "release".to_string(),
            status: "queued".to_string(),
            tx_hash: None,
            created_at: 13,
            done_at: None,
            quote_php_per_xlm_centavos: None,
            quote_usd_per_xlm_e8: None,
            quote_php_per_usd_centavos: None,
        },
    ];
    let m = movements(&Some("h1".to_string()), Some(5), &actions);
    assert_eq!(m.len(), 3);
    assert_eq!(m[0].kind, "lock");
    assert_eq!(m[1].status, "confirmed");
    assert_eq!(m[1].at, Some(12));
    assert_eq!(m[2].status, "queued");
    assert_eq!(m[2].at, Some(13));
    let sources = vec![
        PriceSourceView { name: "a".to_string(), centavos_per_xlm: 1, leg: "XLM/PHP".to_string(), deviation_bps: 0, used: true },
        PriceSourceView { name: "b".to_string(), centavos_per_xlm: 1, leg: "XLM/PHP".to_string(), deviation_bps: 900, used: false },
    ];
    assert_eq!(sources_used(&sources), 1);
}

#[test]
fn score_writers_move_once_and_only_when_clamped_differently() {
    assert_eq!(score_write(REPAID_TERM_COMPLETE, Some(100), false), Some(105));
    assert_eq!(score_write(REPAID_TERM_COMPLETE, Some(150), false), None);
    assert_eq!(score_write(GUARANTOR_CLAIMED, Some(55), false), Some(50));
    assert_eq!(score_write(GUARANTOR_CLAIMED, Some(80), true), None);
    assert_eq!(score_write(GUARANTOR_CLAIM_SETTLED, None, false), None);
    assert!(rise_due(Some(10), false, "closed", 10));
    assert!(!rise_due(Some(11), false, "closed", 10));
    assert!(!rise_due(Some(10), true, "closed", 10));
    assert!(!rise_due(None, false, "closed", 10));
}

#[test]
fn checkouts_come_from_a_whitelisted_purpose() {
    let p = checkout_plan("repay", 0, Some("L1")).unwrap();
    assert_eq!(p.purpose, PaymentPurpose::Repay);
    assert_eq!(p.success_path, "/pay?loan=L1");
    let d = checkout_plan("deposit", 5_000, None).unwrap();
    assert_eq!(d.success_path, "/lending");
    assert_eq!(checkout_plan("deposit", 0, None).unwrap_err().message, "Invalid amount");
    assert_eq!(checkout_plan("repay", 0, None).unwrap_err().message, "Which loan is this repaying?");
    assert_eq!(checkout_plan("tip", 1, None).unwrap_err().message, "Unknown payment purpose");
    let (purpose, description) = order_plan("repay", 0, Some("L9")).unwrap();
    assert_eq!(purpose, PaymentPurpose::Repay);
    assert_eq!(description, "PrimeLendRow loan repayment L9");
    assert!(order_plan("deposit", 2_000_000_000_000, None).is_ok());
    assert_eq!(cancel_purpose("repay"), Ok("repay"));
    assert!(cancel_purpose("other").is_err());
}

fn intent(status: &str, rail: &str) -> IntentRow {
    IntentRow {
        id: 9,
        owner: 1,
        purpose: "repay".to_string(),
        loan_id: Some(4),
        amount: 1_000,
        applies: Some(970),
        rail: rail.to_string(),
        status: status.to_string(),
        expires_at: 100,
    }
}

#[test]
fn claims_follow_the_intent_state() {
    assert!(matches!(claim_step(None, 1, "paypal", "repay", 0), ClaimStep::Refuse(r) if r.status == 422));
    let row = intent("open", "paypal");
    assert!(matches!(claim_step(Some(&row), 2, "paypal", "repay", 0), ClaimStep::Refuse(r) if r.message == "That payment doesn't belong to this account"));
    assert!(matches!(claim_step(Some(&row), 1, "paypal", "deposit", 0), ClaimStep::Refuse(r) if r.message == "That payment was started for something else"));
    match claim_step(Some(&row), 1, "paypal", "repay", 50) {
        ClaimStep::Answer(Claim::Proceed(c)) => {
            assert_eq!(c.amount, 1_000);
            assert_eq!(c.applies, Some(970));
        },
        _ => panic!("an open intent proceeds"),
    }
    assert!(matches!(claim_step(Some(&row), 1, "paypal", "repay", 101), ClaimStep::ExpireAndRefuse(_)));
    let stale = intent("superseded", "stripe");
    assert!(matches!(claim_step(Some(&stale), 1, "stripe", "repay", 0), ClaimStep::Answer(Claim::Stale(_))));
    let stale_paypal = intent("expired", "paypal");
    assert!(matches!(claim_step(Some(&stale_paypal), 1, "paypal", "repay", 0), ClaimStep::Refuse(r) if r.status == 409));
    let done = intent("consumed", "paypal");
    assert!(matches!(claim_step(Some(&done), 1, "paypal", "repay", 0), ClaimStep::Refuse(r) if r.message == "This payment was already processed"));
}

#[test]
fn amount_due_is_the_next_installment_or_the_arrears() {
    let rows = vec![(1i16, 100i64, 100i64, 1_000i64, 1_000i64), (2, 100, 40, 1_000, 0)];
    assert_eq!(amount_due(Some((1, "active")), 1, &rows, 0), Ok((1_060, Some(2))));
    assert_eq!(amount_due(Some((1, "active")), 2, &rows, 0).unwrap_err().status, 404);
    assert_eq!(amount_due(None, 1, &rows, 0).unwrap_err().message, "Loan not found");
    assert_eq!(amount_due(Some((1, "reconciling")), 1, &[], 500), Ok((500, None)));
    assert_eq!(amount_due(Some((1, "reconciling")), 1, &[], 0).unwrap_err().status, 409);
    assert_eq!(amount_due(Some((1, "closed")), 1, &[], 0).unwrap_err().message, "This loan is not accepting payments");
    let paid = vec![(1i16, 100i64, 100i64, 1_000i64, 1_000i64)];
    assert_eq!(amount_due(Some((1, "active")), 1, &paid, 0).unwrap_err().message, "Nothing is due on this loan");
}

#[test]
fn reservations_check_their_limits() {
    assert!(check_minimum(99, 100).is_err());
    assert!(check_minimum(100, 100).is_ok());
    assert!(check_allowance(501, 500).is_err());
    assert!(check_allowance(500, 500).is_ok());
    assert!(check_not_capturing(true).is_err());
    assert_eq!(expires_at(1_000), 4_600);
    assert!(is_stale(Some("expired")));
    assert!(!is_stale(Some("open")));
    assert!(!is_stale(None));
}

#[test]
fn refunds_record_why() {
    let (status, note, answer) = refund_record("paid late", None);
    assert_eq!((status, note.as_str(), answer.status), ("refunded", "paid late", 409));
    let (status, note, _) = refund_record("paid late", Some("declined"));
    assert_eq!(status, "refund_failed");
    assert_eq!(note, "paid late — refund: declined");
    let superseded = vec![
        ("stripe".to_string(), Some("cs_1".to_string())),
        ("paypal".to_string(), Some("O-1".to_string())),
        ("stripe".to_string(), None),
    ];
    assert_eq!(stripe_pages(&superseded), vec!["cs_1".to_string()]);
}

#[test]
fn a_loans_life_reads_in_time_order() {
    let collateral = vec![CollateralRow {
        loan_id: 7,
        wallet_address: "G".to_string(),
        required_stroops: 1,
        locked_stroops: 30,
        status: "locked".to_string(),
        lock_tx_hash: Some("lock".to_string()),
        locked_at: Some(5),
    }];
    let vault = vec![VaultRow {
        loan_id: 7,
        action: "release".to_string(),
        status: "done".to_string(),
        tx_hash: Some("rel".to_string()),
        at: 20,
        moved_stroops: Some(30),
        value_centavos: None,
    }];
    let payouts = vec![PayoutRow {
        loan_id: 7,
        amount: 900,
        status: "paid".to_string(),
        transaction_id: None,
        batch_id: Some("B1".to_string()),
        created_at: 6,
    }];
    let payments = vec![
        PaymentRow { loan_id: 7, amount_received: 500, paid_at: 6 },
        PaymentRow { loan_id: 8, amount_received: 1, paid_at: 1 },
    ];
    let m = movements_for(7, Some(6), 900, &collateral, &vault, &payouts, &payments);
    let kinds: Vec<&str> = m.iter().map(|x| x.kind.as_str()).collect();
    assert_eq!(kinds, vec!["collateral_lock", "disbursed", "payout", "payment", "collateral_release"]);
    assert_eq!(m[2].reference.as_deref(), Some("B1"));
    assert_eq!(m[4].status, "confirmed");
    assert_eq!(admin_where_clause("defaulted"), "WHERE l.status = 'defaulted'");
    assert_eq!(admin_where_clause("; DROP"), "");
}

#[test]
fn webhook_events_ask_for_one_thing() {
    let obj = EventObject {
        id: Some("cs_1".to_string()),
        email: None,
        payouts_enabled: None,
        details_submitted: None,
        client_reference_id: Some("67e55044-10b1-426f-9247-bb680e5fe0c8".to_string()),
        purpose: Some("deposit".to_string()),
    };
    match webhook_action("checkout.session.completed", &obj) {
        WebhookAction::CreditDeposit { session_id, member, .. } => {
            assert_eq!(session_id, "cs_1");
            assert_eq!(member, 0x67e5504410b1426f9247bb680e5fe0c8);
        },
        _ => panic!("a deposit session is credited"),
    }
    let bad = EventObject { client_reference_id: Some("not-a-member".to_string()), ..obj.clone() };
    assert!(matches!(webhook_action("checkout.session.completed", &bad), WebhookAction::Ignore));
    let repay = EventObject { purpose: Some("repay".to_string()), ..obj.clone() };
    assert!(matches!(webhook_action("checkout.session.completed", &repay), WebhookAction::Ignore));
    match webhook_action("account.updated", &obj) {
        WebhookAction::UpdateAccount { email, payouts_enabled, .. } => {
            assert_eq!(email, "");
            assert!(!payouts_enabled);
        },
        _ => panic!("an account update is recorded"),
    }
    assert!(matches!(webhook_action("charge.refunded", &obj), WebhookAction::Ignore));
}

#[test]
fn locks_are_checked_against_the_pinned_requirement() {
    assert!(check_position_pending("pending").is_ok());
    assert_eq!(check_position_pending("locked").unwrap_err().status, 409);
    assert_eq!(check_locked_enough(99, 100).unwrap_err().status, 422);
    assert!(check_locked_enough(100, 100).is_ok());
    assert!(check_loan_awaiting(1, 2, "pending").is_err());
    assert!(check_loan_awaiting(1, 1, "active").is_err());
    assert!(check_loan_awaiting(1, 1, "pending").is_ok());
    assert_eq!(lock_rail_ref("  abc \n"), "stellar:abc");
}

#[test]
fn drift_tallies_what_is_done() {
    let a = |id: u128, action: &str, status: &str| DriftAction {
        collateral_id: id,
        action: action.to_string(),
        status: status.to_string(),
        tx_hash: None,
        moved_stroops: None,
    };
    let actions = vec![a(1, "mark_repaid", "done"), a(1, "release", "done"), a(2, "seize", "done"), a(1, "seize", "queued")];
    assert_eq!(tally_actions(&actions, 1), (1, 0, 2));
    let (r, s, d) = tally_actions(&actions, 1);
    assert!(position_consistent("released", r, s, true, d));
    assert!(!position_consistent("locked", r, s, true, d));
}

#[test]
fn a_settled_claim_costs_what_a_settled_default_does() {
    let claimed = outcome(GUARANTOR_CLAIMED, 100).score_to;
    assert_eq!(outcome(GUARANTOR_CLAIM_SETTLED, claimed).score_to, 95);
    let defaulted = outcome(LOAN_DEFAULTED, 100).score_to;
    assert_eq!(outcome(DEFAULT_SETTLED, defaulted).score_to, 95);
    // Where the floor bites, the net is smaller.
    let floored = outcome(GUARANTOR_CLAIMED, 55).score_to;
    assert_eq!(outcome(GUARANTOR_CLAIM_SETTLED, floored).score_to, 55);
}

#[test]
fn interrupted_payments_finish_the_way_they_started() {
    assert_eq!(finish_for("repay", Some(4)), Finish::Repay(4));
    assert_eq!(finish_for("repay", None), Finish::Unfinishable);
    assert_eq!(finish_for("deposit", None), Finish::Deposit);
    assert_eq!(stripe_session_outcome::<i64>(Ok(5)), Ok(Some(5)));
    assert_eq!(stripe_session_outcome::<i64>(Err("Payment was not completed")), Ok(None));
    assert_eq!(stripe_session_outcome::<i64>(Err("timeout")), Err(()));
}

#[test]
fn headroom_counts_deposits_still_in_flight() {
    let limits = DepositLimitsFor { per_deposit: 5_000, daily: 10_000, monthly: 50_000, max_balance: 100_000 };
    let h = deposit_headroom(limits, 6_000, 20_000, 90_000, 1_000);
    assert_eq!((h.used_24h, h.used_30d, h.balance), (7_000, 21_000, 91_000));
    assert_eq!(h.allowance, 3_000);
}

#[test]
fn the_report_exits_by_what_it_found() {
    assert_eq!(report_code(Ok(0)), 0);
    assert_eq!(report_code(Ok(3)), 1);
    assert_eq!(report_code(Err(())), 2);
}

#[test]
fn answers_name_how_an_application_stands() {
    let funded = apply_answer(9, "deposit_backed", 200, 50_000, None, None, None);
    assert_eq!((funded.status, funded.required_stroops, funded.cover_required), ("active", None, None));
    let leg = XlmLeg { required_stroops: 30, contract: "CVAULT".to_string(), ratio_bps: 12_000, usd_per_xlm_e8: 5, usd_php_centavos: 6 };
    let cover = || CoverPlan { required: 25_000, deposit: 10_000, xlm: 15_000, total: 25_000, guarantor_gap: 25_000 };
    let g = apply_answer(9, "guarantor", 600, 50_000, Some(cover()), Some(leg.clone()), None);
    assert_eq!(g.status, "pending");
    assert_eq!(g.collateral_contract.as_deref(), Some("CVAULT"));
    assert_eq!(g.guarantor_gap, Some(25_000));
    assert!(g.message.starts_with("Invitations sent — lock your XLM"));
    let plain = apply_answer(9, "guarantor", 600, 50_000, Some(cover()), None, None);
    assert!(plain.message.starts_with("Invitations sent — the loan disburses"));
}

#[test]
fn a_rise_is_due_at_term_end_however_early_the_loan_closes() {
    assert_eq!(score_rise_at(&[100, 200, 300], 150), 300);
    assert_eq!(score_rise_at(&[100, 200, 300], 400), 400);
    assert_eq!(score_rise_at(&[], 50), 50);
}

#[test]
fn a_second_submission_is_refused_by_what_stands() {
    assert_eq!(check_existing(Some("approved")).unwrap_err().message, "Your identity is already verified");
    assert_eq!(check_existing(Some("verifying")).unwrap_err().message, "Your submission is already under review");
    assert!(check_existing(None).is_ok());
    assert_eq!(check_id_free(true).unwrap_err().status, 409);
    assert_eq!(document_path("u", "s", "id", "png"), "u/s/id.png");
}

#[test]
fn the_report_names_what_it_found() {
    assert_eq!(lock_step(Some("abcdefghijkl"), true, "locked"), LockStep::Verify);
    assert_eq!(
        lock_step(Some("abcdefghijkl"), false, "locked"),
        LockStep::Finding("lock abcdefghij is recorded with no wallet to check it against".to_string())
    );
    assert_eq!(lock_step(None, true, "seized"), LockStep::Finding("seized, but no lock was ever recorded".to_string()));
    assert_eq!(lock_step(None, true, "pending"), LockStep::Nothing);
    assert_eq!(undone_finding("release"), "release is marked done with no transaction recorded");
    assert_eq!(
        inconsistency_finding("locked", 1, 0),
        "the position says locked, but 1 release(s) and 0 seizure(s) are recorded against it"
    );
    assert_eq!(loan_finding("958177F0", "x"), "Loan 958177F0: x");
    let ev = |name: &str, tx: &str| VaultEvent {
        name: name.to_string(),
        tx_hash: tx.to_string(),
        loan_hex: "958177f02f7e4b20a3c5892097349930".to_string(),
        closed_at: "2024-01-01".to_string(),
        amount: Some(10_000_000),
    };
    let events = vec![ev("locked", "t1"), ev("configured", "t2"), ev("seized", "t3")];
    assert_eq!(unmatched_events(&events, &vec!["t1".to_string()]), vec![2]);
    assert_eq!(event_loan("958177f02f7e4b20a3c5892097349930"), "958177F0");
    assert_eq!(event_loan("zz"), "zz");
    assert_eq!(event_loan("{958177F0-2F7E-4B20-A3C5-892097349930}"), "958177F0");
    assert_eq!(event_loan("URN:uuid:958177f0-2f7e-4b20-a3c5-892097349930"), "958177F0");
    assert_eq!(event_loan("958177f0-2f7e-4b20-a3c5-89209734993"), "958177f0-2f7e-4b20-a3c5-89209734993");
    assert_eq!(
        chain_finding("958177F0", &events[2]),
        "Loan 958177F0: seized on chain at 2024-01-01 (tx t3, 1.0000000 XLM) is not in the database"
    );
}

#[test]
fn health_is_withheld_when_it_cannot_be_computed() {
    assert_eq!(health_checked(20_000_000, 1_800, 3_000), Some(Some(120)));
    assert_eq!(health_checked(i64::MAX, i64::MAX, 1), None);
}
