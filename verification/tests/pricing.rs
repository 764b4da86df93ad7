//! Agreeing on an XLM price from independent feeds.

use lr_engine::pricing::{PricingStep, pricing_step};
use lr_engine::domain::RATE_SCALE;
use lr_engine::pricing::{Failure, MAX_DEVIATION_BPS, Reading, SourceRate, aggregate};

const SCALE: i64 = RATE_SCALE;

fn reading(direct: &[(&'static str, f64)], usd: &[(&'static str, f64)], fx: &[(&'static str, f64)]) -> Reading {
    // Test-only convenience: production rates are never built from a float.
    let scale = |v: &f64| (v * SCALE as f64).round() as i64;
    Reading {
        direct_php: direct.iter().map(|(n, v)| SourceRate { name: n.to_string(), scaled: scale(v) }).collect(),
        usd_per_xlm: usd.iter().map(|(n, v)| SourceRate { name: n.to_string(), scaled: scale(v) }).collect(),
        php_per_usd: fx.iter().map(|(n, v)| SourceRate { name: n.to_string(), scaled: scale(v) }).collect(),
        failures: vec![Failure { name: "kraken".to_string(), reason: "feed unreachable".to_string() }],
    }
}

#[test]
fn crosses_the_dollar_leg_and_agrees_with_the_direct_feed() {
    // ₱22.82 direct, and $0.39 x ₱58.50 = ₱22.815 -> ₱22.82 derived.
    let p = aggregate(
        reading(&[("coingecko", 22.82)], &[("binance", 0.39), ("coinbase", 0.3901)], &[("er-api", 58.5), ("frankfurter", 58.5)]),
        1_700_000_000,
    )
    .expect("three feeds agree");
    assert_eq!(p.centavos_per_xlm, 2282);
    assert_eq!(p.usd_php_centavos, Some(5850));
    // The dollar leg survives whole for the contract to check.
    assert_eq!(p.usd_per_xlm_e8, Some(39_005_000));
    assert!(p.checkable_legs().is_some());
    assert_eq!(p.sources.len(), 3);
    assert!(p.sources.iter().all(|s| s.used));
    assert_eq!(p.failures.len(), 1);
    assert!(p.live);
}

#[test]
fn a_lone_feed_is_never_enough() {
    assert!(aggregate(reading(&[("coingecko", 22.82)], &[("binance", 0.39)], &[]), 0).is_none());
}

#[test]
fn a_price_with_no_dollar_leg_is_not_issuable() {
    let p = aggregate(reading(&[("coingecko", 22.82), ("kraken", 22.83)], &[], &[]), 0)
        .expect("two direct feeds agree");
    assert_eq!(p.centavos_per_xlm, 2282); // ₱22.825, half-to-even
    assert!(p.checkable_legs().is_none());
}

#[test]
fn an_outlier_is_dropped_but_still_recorded() {
    let p = aggregate(
        reading(&[("coingecko", 22.82)], &[("binance", 0.39), ("coinbase", 9.0)], &[("er-api", 58.5)]),
        0,
    )
    .expect("two honest feeds still agree");
    assert_eq!(p.centavos_per_xlm, 2282);
    let outlier = p.sources.iter().find(|s| s.name == "coinbase").unwrap();
    assert!(!outlier.used);
    assert!(outlier.deviation_bps > MAX_DEVIATION_BPS);
}

#[test]
fn total_disagreement_refuses_to_price() {
    assert!(
        aggregate(reading(&[("coingecko", 22.82)], &[("binance", 9.0)], &[("er-api", 58.5)]), 0)
            .is_none()
    );
}

#[test]
fn the_feeds_are_asked_once_a_window() {
    assert_eq!(pricing_step(Some(100), 0, 150), PricingStep::UseCached);
    assert_eq!(pricing_step(Some(100), 130, 170), PricingStep::HoldOrRefuse);
    assert_eq!(pricing_step(None, 0, 170), PricingStep::Fetch);
    assert_eq!(pricing_step(Some(10), 100, 160), PricingStep::Fetch);
}
