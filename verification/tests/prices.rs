use pkdump_db::prices::{market_price, ManualObservation};

fn bits(p: f64) -> Option<u64> {
    Some(p.to_bits())
}

fn price(r: Option<u64>) -> Option<f64> {
    r.map(f64::from_bits)
}

fn manual(list: &[(&str, f64)]) -> Vec<ManualObservation> {
    list.iter()
        .map(|(t, p)| ManualObservation { observed_at: t.to_string(), price_bits: p.to_bits() })
        .collect()
}

#[test]
fn tcgplayer_market_wins() {
    // basep-14-normal: the feed prices it at 12.50.
    assert_eq!(price(market_price(bits(12.5), None, false, &vec![])), Some(12.5));
}

#[test]
fn a_catalog_override_fills_a_gap_the_feed_leaves() {
    // basep-10-normal: no feed price, a curated override of 61.
    assert_eq!(price(market_price(None, bits(61.0), false, &vec![])), Some(61.0));
    // A catalog printing with neither source prices as nothing.
    assert_eq!(price(market_price(None, None, false, &vec![])), None);
}

#[test]
fn a_tenant_manual_price_cannot_price_a_catalog_printing() {
    let tenant = manual(&[("2026-08-10T00:00:00Z", 999.0)]);
    assert_eq!(price(market_price(None, None, false, &tenant)), None);
    // Not even to beat an override it disagrees with.
    assert_eq!(price(market_price(None, bits(61.0), false, &tenant)), Some(61.0));
}

#[test]
fn a_user_created_printing_still_prices_from_the_tenant() {
    let tenant = manual(&[("2026-08-10T00:00:00Z", 42.0)]);
    assert_eq!(price(market_price(None, None, true, &tenant)), Some(42.0));
}

#[test]
fn the_newest_tenant_observation_wins_for_a_user_created_printing() {
    let tenant = manual(&[
        ("2026-01-01T00:00:00Z", 10.0),
        ("2026-06-01T00:00:00Z", 20.0),
        ("2026-03-01T00:00:00Z", 15.0),
    ]);
    assert_eq!(price(market_price(None, None, true, &tenant)), Some(20.0));
}

#[test]
fn upstream_supersedes_an_override_without_it_being_removed() {
    // The feed caught up at 55 while the seed still carries 61.
    assert_eq!(price(market_price(bits(55.0), bits(61.0), false, &vec![])), Some(55.0));
}

#[test]
fn a_user_printing_without_observations_has_no_price() {
    assert_eq!(price(market_price(None, None, true, &vec![])), None);
}
