use pkdump_db::catalog_prices::{has_override, reconcile, CatalogPriceOverride};

fn row(printing_id: &str, price: f64) -> CatalogPriceOverride {
    CatalogPriceOverride {
        printing_id: printing_id.into(),
        price_bits: price.to_bits(),
        observed_at: "2026-08-01T00:00:00Z".into(),
        note: Some("curated".into()),
    }
}

fn seed() -> Vec<CatalogPriceOverride> {
    vec![row("basep-10-normal", 61.0), row("basep-14-normal", 90.0)]
}

fn price_of(table: &[CatalogPriceOverride], printing_id: &str) -> Option<f64> {
    table.iter().find(|o| o.printing_id == printing_id).map(|o| f64::from_bits(o.price_bits))
}

#[test]
fn reconcile_skips_overrides_whose_printing_this_catalog_lacks() {
    // A fresh catalog has no printings at all.
    let mut table = Vec::new();
    assert_eq!(reconcile(&mut table, &seed(), &vec![false, false]), 0);
    assert!(table.is_empty());
}

#[test]
fn reconcile_is_idempotent_and_writes_present_printings() {
    // The catalog holds basep-10 only.
    let mut table = Vec::new();
    assert_eq!(reconcile(&mut table, &seed(), &vec![true, false]), 1);
    assert!(has_override(&table, "basep-10-normal"));
    assert!(!has_override(&table, "basep-14-normal"));

    // A second pass writes the same row again, and there is still one.
    reconcile(&mut table, &seed(), &vec![true, false]);
    assert_eq!(table.len(), 1);
}

#[test]
fn reconcile_overwrites_a_locally_edited_price() {
    let mut table = Vec::new();
    reconcile(&mut table, &seed(), &vec![true, false]);
    table[0].price_bits = 1.0f64.to_bits();
    reconcile(&mut table, &seed(), &vec![true, false]);
    assert_eq!(price_of(&table, "basep-10-normal"), Some(61.0));
}

#[test]
fn reconcile_keeps_rows_the_list_does_not_name() {
    let mut table = vec![row("base6-16-reverse_holo", 87.99)];
    reconcile(&mut table, &seed(), &vec![true, true]);
    assert_eq!(table.len(), 3);
    assert_eq!(price_of(&table, "base6-16-reverse_holo"), Some(87.99));
    assert_eq!(price_of(&table, "basep-14-normal"), Some(90.0));
}
