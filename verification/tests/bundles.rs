use pkdump_db::binder::BinderQuery;
use pkdump_db::bundles::{
    bundle_release_date, bundle_totals, copy_counts, default_series, get_bundle_binder,
    number_sortable_of, parse_i64, rarity_tally, Bundle, BundleProductRow, RarityCount,
};

fn ttbb24() -> Bundle {
    Bundle {
        slug: "ttbb-2024".into(),
        name: "Trick or Trade BOOster Bundle 2024".into(),
        year: 2024,
        tcgcsv_group_id: 23561,
        series: default_series(),
    }
}

fn product(
    id: i64,
    name: &str,
    cn: &str,
    printing: Option<(&str, &str)>,
    card: Option<(&str, &str, &str, &str)>,
    owned: i64,
) -> BundleProductRow {
    BundleProductRow {
        product_id: id,
        product_name: name.into(),
        product_image: Some(format!("http://x/{id}.jpg")),
        number_sortable: number_sortable_of(cn),
        printing_id: printing.map(|p| p.0.to_string()),
        variant: printing.map(|p| p.1.to_string()),
        deprecated_at: None,
        market_price_bits: None,
        card_id: card.map(|c| c.0.to_string()),
        card_name: card.map(|c| c.1.to_string()),
        card_number: card.map(|c| c.2.to_string()),
        card_rarity: card.map(|_| "Rare".to_string()),
        card_image_large: card.map(|c| c.3.to_string()),
        home_set_code: card.map(|_| "sv3".to_string()),
        home_set_name: card.map(|_| "Obsidian Flames".to_string()),
        owned_count: owned,
    }
}

fn rows(umbreon_owned: i64) -> Vec<BundleProductRow> {
    vec![
        product(
            568704,
            "Umbreon",
            "130/197",
            Some(("sv3-130-stamp_trick_or_trade", "stamp_trick_or_trade")),
            Some(("sv3-130", "Umbreon", "130", "http://x/umb-card.jpg")),
            umbreon_owned,
        ),
        product(
            568826,
            "Darkrai (Cosmos Holo)",
            "136/197",
            Some(("sv3-136-cosmos_holo_trick_or_trade", "cosmos_holo_trick_or_trade")),
            Some(("sv3-136", "Darkrai", "136", "http://x/dark-card.jpg")),
            0,
        ),
    ]
}

#[test]
fn binder_resolves_printings_and_orders_by_collector_number() {
    let page = get_bundle_binder(Some(ttbb24()), rows(0), &BinderQuery::default()).unwrap();
    assert_eq!(page.set.kind, "bundle");
    assert_eq!(page.slots.len(), 2);
    assert_eq!(page.slots[0].name, "Umbreon");
    assert_eq!(page.slots[0].external_set.as_ref().unwrap().set_code, "sv3");
    assert_eq!(page.slots[0].printings.len(), 1);
    assert_eq!(page.slots[0].printings[0].variant, "stamp_trick_or_trade");
    assert_eq!(page.slots[1].name, "Darkrai");
    assert_eq!(page.base_total, 2);
    assert_eq!(page.master_total, 2);
}

#[test]
fn binder_owned_counts_track_collection_and_filters_have() {
    let page = get_bundle_binder(Some(ttbb24()), rows(1), &BinderQuery::default()).unwrap();
    assert_eq!(page.base_owned, 1);
    let have = get_bundle_binder(
        Some(ttbb24()),
        rows(1),
        &BinderQuery { filter: "have".into(), ..Default::default() },
    )
    .unwrap();
    assert_eq!(have.slots.len(), 1);
    assert_eq!(have.slots[0].name, "Umbreon");
}

#[test]
fn binder_returns_none_for_unknown_slug() {
    assert!(get_bundle_binder(None, rows(0), &BinderQuery::default()).is_none());
}

#[test]
fn analytics_returns_some_for_bundle() {
    let r = rows(1);
    let t = bundle_totals(&r);
    assert_eq!(t.total_cards, 2);
    assert_eq!(t.owned_cards, 1);
    assert_eq!(copy_counts(&r).len(), 2);
}

#[test]
fn an_unbridged_product_keeps_its_own_name_and_a_synthetic_id() {
    let lone = product(99, "Mystery Promo", "007", None, None, 0);
    let page = get_bundle_binder(Some(ttbb24()), vec![lone], &BinderQuery::default()).unwrap();
    let s = &page.slots[0];
    assert_eq!(s.card_id, "bundle-product-99");
    assert_eq!(s.number, "7");
    assert_eq!(s.name, "Mystery Promo");
    assert_eq!(s.image_large.as_deref(), Some("http://x/99.jpg"));
    assert!(s.printings.is_empty());
    assert!(s.external_set.is_none());
}

#[test]
fn collector_numbers_sort_by_their_leading_number() {
    assert_eq!(number_sortable_of("130/197"), 130);
    assert_eq!(number_sortable_of("007"), 7);
    assert_eq!(number_sortable_of("000"), 0);
    assert_eq!(number_sortable_of("SWSH001"), 0);
    assert_eq!(number_sortable_of(""), 0);
    assert_eq!(parse_i64("-12"), Some(-12));
    assert_eq!(parse_i64("+5"), Some(5));
    assert_eq!(parse_i64("9223372036854775807"), Some(i64::MAX));
    assert_eq!(parse_i64("-9223372036854775808"), Some(i64::MIN));
    assert_eq!(parse_i64("9223372036854775808"), None);
    assert_eq!(parse_i64("-"), None);
    assert_eq!(parse_i64("12a"), None);
}

#[test]
fn a_bundle_is_listed_in_october_of_its_year() {
    assert_eq!(bundle_release_date(2024), "2024-10-01");
    assert_eq!(default_series(), "Trick or Trade Bundle");
}

#[test]
fn bundle_name_sort_descends_case_insensitively() {
    let q = BinderQuery { sort: "name_desc".into(), ..Default::default() };
    let page = get_bundle_binder(Some(ttbb24()), rows(0), &q).unwrap();
    assert_eq!(page.slots[0].name, "Umbreon");
    assert_eq!(page.slots[1].name, "Darkrai");
    // Rarity sorting is not offered for bundles: it falls back to number order.
    let q = BinderQuery { sort: "rarity".into(), ..Default::default() };
    let page = get_bundle_binder(Some(ttbb24()), rows(0), &q).unwrap();
    assert_eq!(page.slots[0].name, "Umbreon");
}

#[test]
fn the_rarity_split_counts_each_rarity_once() {
    let mut all = rows(2);
    let mut holo = product(568900, "Pikachu", "25/197", None, Some(("sv3-25", "Pikachu", "25", "http://x/p.jpg")), 1);
    holo.card_rarity = Some("Common".into());
    all.push(holo);
    all.push(product(568901, "Code Card", "", None, None, 0));
    let split = rarity_tally(&all);
    assert_eq!(
        split,
        vec![
            RarityCount { rarity: "Rare".into(), total: 2, owned: 1 },
            RarityCount { rarity: "Common".into(), total: 1, owned: 1 },
        ]
    );
    assert!(rarity_tally(&vec![]).is_empty());
}
