use pkdump_db::cards::{group_price_series, PriceRow};

fn row(printing_id: &str, variant: &str, sub: Option<&str>, price_type: &str, date: &str, price: f64) -> PriceRow {
    PriceRow {
        printing_id: printing_id.into(),
        variant: variant.into(),
        sub_type_name: sub.map(String::from),
        price_type: price_type.into(),
        date: date.into(),
        price_bits: price.to_bits(),
    }
}

#[test]
fn get_card_prices_returns_ordered_series_per_printing() {
    // The market rows of sv3pt5-6, ordered by printing, type and date; the
    // `low` row never reaches the grouping.
    let rows = vec![
        row("sv3pt5-6-normal", "normal", Some("Normal"), "market", "2026-05-21", 9.5),
        row("sv3pt5-6-normal", "normal", Some("Normal"), "market", "2026-05-22", 10.0),
        row("sv3pt5-6-reverse_holo", "reverse_holo", Some("Reverse Holofoil"), "market", "2026-05-21", 24.0),
        row("sv3pt5-6-reverse_holo", "reverse_holo", Some("Reverse Holofoil"), "market", "2026-05-22", 25.0),
    ];
    let series = group_price_series(&rows);
    assert_eq!(series.len(), 2, "one series per printing");
    let normal = series.iter().find(|s| s.variant == "normal").unwrap();
    assert_eq!(normal.points.len(), 2);
    assert_eq!(normal.points[0].date, "2026-05-21");
    assert_eq!(f64::from_bits(normal.points[0].price_bits), 9.5);
    assert_eq!(f64::from_bits(normal.points[1].price_bits), 10.0);
    assert!(series.iter().all(|s| s.price_type == "market"));
    assert_eq!(series[1].sub_type_name, "Reverse Holofoil");
}

#[test]
fn get_card_prices_returns_empty_for_unknown_card() {
    assert!(group_price_series(&vec![]).is_empty());
}

#[test]
fn get_card_prices_emits_manual_series_even_without_tcgplayer_link() {
    let rows = vec![
        row("basep-14-normal", "normal", None, "manual", "2024-03-01T00:00:00Z", 175.0),
        row("basep-14-normal", "normal", None, "manual", "2024-06-01T00:00:00Z", 200.0),
    ];
    let series = group_price_series(&rows);
    assert_eq!(series.len(), 1, "one manual series, no market");
    let s = &series[0];
    assert_eq!(s.price_type, "manual");
    assert_eq!(s.printing_id, "basep-14-normal");
    assert_eq!(s.sub_type_name, "");
    assert_eq!(s.points.len(), 2);
    // Oldest first within the series.
    assert_eq!(f64::from_bits(s.points[0].price_bits), 175.0);
    assert_eq!(f64::from_bits(s.points[1].price_bits), 200.0);
}

#[test]
fn get_card_prices_emits_both_market_and_manual_series_for_same_printing() {
    let rows = vec![
        row("sv3pt5-6-normal", "normal", Some("Normal"), "manual", "2026-05-25T00:00:00Z", 12.5),
        row("sv3pt5-6-normal", "normal", Some("Normal"), "market", "2026-05-22", 10.0),
    ];
    let series = group_price_series(&rows);
    assert_eq!(series.len(), 2);
    let market = series.iter().find(|s| s.price_type == "market").unwrap();
    let manual = series.iter().find(|s| s.price_type == "manual").unwrap();
    assert_eq!(market.points.len(), 1);
    assert_eq!(manual.points.len(), 1);
    assert_eq!(f64::from_bits(market.points[0].price_bits), 10.0);
    assert_eq!(f64::from_bits(manual.points[0].price_bits), 12.5);
}
