use pkdump_db::exports::{
    bool_str, card_number, collectr_sealed_csv, collectr_singles_csv, date_only, grade,
    manabox_csv, variant_to_collectr, ManaboxRow, SealedExportRow, SinglesExportRow,
};

fn charizard(cost: &str) -> SinglesExportRow {
    SinglesExportRow {
        set_name: "151".into(),
        printed_total: Some(165),
        card_name: "Charizard ex".into(),
        number: "6".into(),
        rarity: Some("Double Rare".into()),
        variant: "holo".into(),
        condition: "Near Mint".into(),
        cost: cost.into(),
        acquired_at: Some("2026-04-14T00:00:00Z".into()),
        graded: 0,
        grade_company: None,
        grade_value: None,
        notes: None,
    }
}

#[test]
fn singles_export_is_collectr_shaped() {
    let csv = collectr_singles_csv(&vec![charizard("4.50")]).unwrap();
    let lines: Vec<&str> = csv.lines().collect();
    assert!(lines[0].starts_with("Portfolio Name,Category,Set,Product Name,Card Number"));
    let row = lines[1];
    assert!(row.starts_with(
        "Main,Pokemon,151,Charizard ex,6/165,Double Rare,Holofoil,Ungraded,Near Mint,4.50,1"
    ));
    assert!(row.contains("2026-04-14"));
}

#[test]
fn sealed_export_keeps_quantity_and_marks_blank_number() {
    let csv = collectr_sealed_csv(&vec![SealedExportRow {
        set_name: Some("151".into()),
        product_name: "151 Elite Trainer Box".into(),
        quantity: 3,
        condition: None,
        cost: "49.99".into(),
        purchase_date: Some("2026-02-28".into()),
        notes: None,
    }])
    .unwrap();
    let lines: Vec<&str> = csv.lines().collect();
    let row = lines[1];
    // Portfolio, blank Card Number + Rarity, quantity preserved.
    assert!(row.starts_with("Sealed Pokemon TCG,Pokemon,151,151 Elite Trainer Box,,,Normal,Ungraded"));
    assert!(row.contains(",3,")); // quantity 3, not expanded
    assert!(row.contains("2026-02-28"));
}

#[test]
fn disposed_rows_are_not_exported() {
    // The export writes exactly the rows it is handed: with none owned,
    // only the header.
    let csv = collectr_singles_csv(&vec![]).unwrap();
    assert_eq!(csv.lines().count(), 1); // header only
}

#[test]
fn collectr_round_trip_holds_the_garden_wall() {
    // Every singles row is in portfolio `Main`, every sealed row in the
    // sealed portfolio with a blank card number: the two never mix.
    let singles = collectr_singles_csv(&vec![charizard("4.50"), charizard("")]).unwrap();
    let sealed = collectr_sealed_csv(&vec![SealedExportRow {
        set_name: None,
        product_name: "Booster Bundle".into(),
        quantity: 1,
        condition: Some("Sealed".into()),
        cost: "".into(),
        purchase_date: None,
        notes: Some("gift".into()),
    }])
    .unwrap();
    for line in singles.lines().skip(1) {
        assert!(line.starts_with("Main,"));
    }
    for line in sealed.lines().skip(1) {
        assert!(line.starts_with("Sealed Pokemon TCG,Pokemon,,Booster Bundle,,,"));
        assert!(line.contains(",Sealed,"));
    }
    assert_eq!(singles.lines().count(), 3);
    assert_eq!(sealed.lines().count(), 2);
}

#[test]
fn exports_a_manabox_shaped_csv() {
    let csv = manabox_csv(&vec![ManaboxRow {
        set_code: "sv3pt5".into(),
        set_name: "151".into(),
        number: "6".into(),
        variant: "normal".into(),
        rarity: Some("Double Rare".into()),
        price: Some("12.50".into()),
        condition: "Near Mint".into(),
        language: "English".into(),
        tags: None,
    }])
    .unwrap();
    let lines: Vec<&str> = csv.lines().collect();
    assert_eq!(lines.len(), 2); // header + one copy
    assert!(lines[0].starts_with("Set code,Set name,Collector number,Foil"));
    assert!(lines[1].contains("sv3pt5"));
    assert!(lines[1].contains("12.50"));
    assert!(lines[1].contains("USD"));
    assert_eq!(
        lines[1],
        "sv3pt5,151,6,normal,Double Rare,1,,,12.50,false,false,Near Mint,English,USD"
    );
}

#[test]
fn manabox_reads_misprint_and_altered_off_the_tags() {
    let csv = manabox_csv(&vec![ManaboxRow {
        set_code: "base1".into(),
        set_name: "Base, Unlimited".into(),
        number: "4".into(),
        variant: "holo".into(),
        rarity: None,
        price: None,
        condition: "Played".into(),
        language: "Japanese".into(),
        tags: Some("altered,misprint".into()),
    }])
    .unwrap();
    let row = csv.lines().nth(1).unwrap();
    // A field holding a comma is quoted; no price means no currency.
    assert_eq!(row, "base1,\"Base, Unlimited\",4,holo,,1,,,,true,true,Played,Japanese,");
}

#[test]
fn the_small_formatters_follow_collectr() {
    assert_eq!(bool_str(true), "true");
    assert_eq!(bool_str(false), "false");
    assert_eq!(card_number("6", Some(165)), "6/165");
    assert_eq!(card_number("SWSH001", None), "SWSH001");
    assert_eq!(variant_to_collectr("holo"), "Holofoil");
    assert_eq!(variant_to_collectr("normal"), "Normal");
    assert_eq!(date_only(Some("2026-04-14T00:00:00Z")), "2026-04-14");
    assert_eq!(date_only(Some("2026")), "2026");
    assert_eq!(date_only(None), "");
    assert_eq!(grade(0, Some("PSA"), Some("10")), "Ungraded");
    assert_eq!(grade(1, Some("PSA"), Some("10")), "PSA 10");
}
