use pkdump_db::latest_prices::{refresh_latest_prices, PriceObservation};

fn obs(product: i64, sub: &str, price: f64, at: &str) -> PriceObservation {
    PriceObservation {
        tcgplayer_product_id: product,
        sub_type_name: sub.into(),
        source: "tcgplayer".into(),
        price_type: "market".into(),
        price_bits: price.to_bits(),
        observed_at: at.into(),
    }
}

#[test]
fn materializes_only_the_newest_price_per_key() {
    let prices = vec![
        obs(100, "Normal", 1.00, "2026-01-01"),
        obs(100, "Normal", 2.50, "2026-02-01"),
        obs(200, "Holofoil", 9.00, "2026-01-15"),
    ];
    let latest = refresh_latest_prices(&prices);
    assert_eq!(latest.len(), 2, "one row per (product,sub_type,source,price_type)");

    // The newest observation wins.
    let p = latest
        .iter()
        .find(|o| o.tcgplayer_product_id == 100 && o.sub_type_name == "Normal")
        .unwrap();
    assert_eq!(f64::from_bits(p.price_bits), 2.50);

    // Rebuilding is a replace, not an append: the same history rebuilds to
    // the same table, and the table rebuilds to itself.
    assert_eq!(refresh_latest_prices(&prices), latest);
    assert_eq!(refresh_latest_prices(&latest), latest);
}

#[test]
fn another_price_type_is_its_own_series() {
    let mut low = obs(100, "Normal", 0.50, "2026-03-01");
    low.price_type = "low".into();
    let prices = vec![obs(100, "Normal", 1.00, "2026-01-01"), low];
    assert_eq!(refresh_latest_prices(&prices).len(), 2);
}
