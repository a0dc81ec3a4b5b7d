use pkdump_db::binder::{
    get_binder_page, mass_entry_line, missing_for_export, BinderQuery, BinderSetInfo, CardPrinting,
    CardRow, ExportCardRow, MissingSetInfo, SlotPrinting,
};

fn set_151() -> BinderSetInfo {
    BinderSetInfo {
        set_code: "sv3pt5".into(),
        name: "151".into(),
        series: "Scarlet & Violet".into(),
        total: Some(4),
        printed_total: Some(2),
        kind: "set".into(),
    }
}

fn cards_151() -> Vec<CardRow> {
    [("sv3pt5-1", "1", 1_i64), ("sv3pt5-2", "2", 2), ("sv3pt5-3", "3", 3), ("sv3pt5-GG01", "GG01", 1_001)]
        .iter()
        .map(|(id, num, ns)| CardRow {
            card_id: id.to_string(),
            number: num.to_string(),
            number_sortable: *ns,
            name: "Card".into(),
            rarity: None,
            image_large: None,
        })
        .collect()
}

fn printing(card: &str, id: &str, variant: &str, owned: i64) -> CardPrinting {
    CardPrinting {
        card_id: card.into(),
        printing: SlotPrinting {
            printing_id: id.into(),
            variant: variant.into(),
            deprecated: false,
            owned_count: owned,
            market_price_bits: None,
        },
    }
}

/// One normal printing per card, with the given owned counts.
fn printings_151(owned: [i64; 4]) -> Vec<CardPrinting> {
    ["sv3pt5-1", "sv3pt5-2", "sv3pt5-3", "sv3pt5-GG01"]
        .iter()
        .zip(owned)
        .map(|(id, n)| printing(id, &format!("{id}-normal"), "normal", n))
        .collect()
}

fn page(q: &BinderQuery, owned: [i64; 4]) -> pkdump_db::binder::BinderPage {
    get_binder_page(Some(set_151()), cards_151(), &printings_151(owned), q).unwrap()
}

#[test]
fn slot_owns_card_via_custom_variant() {
    let mut prs = printings_151([0, 0, 0, 0]);
    // A custom variant on card #2, owned once; its catalog printing is not.
    prs.insert(2, printing("sv3pt5-2", "sv3pt5-2-missing_variant-1", "missing_variant", 1));
    let p = get_binder_page(Some(set_151()), cards_151(), &prs, &BinderQuery::default()).unwrap();
    let slot = p.slots.iter().find(|s| s.card_id == "sv3pt5-2").expect("card #2 slot present");
    let custom = slot
        .printings
        .iter()
        .find(|pr| pr.printing_id == "sv3pt5-2-missing_variant-1")
        .expect("custom variant surfaces as a slot printing");
    assert_eq!(custom.variant, "missing_variant");
    assert_eq!(custom.owned_count, 1, "the custom-variant copy is counted");
    assert!(slot.printings.iter().any(|pr| pr.owned_count > 0), "slot reads as owned");
    assert_eq!(p.base_owned, 1);
}

#[test]
fn assembles_sections_and_progress() {
    let p = page(&BinderQuery::default(), [1, 0, 0, 0]);
    assert_eq!(p.slots.len(), 4);
    assert_eq!(p.base_total, 2);
    assert_eq!(p.base_owned, 1);
    assert_eq!(p.master_total, 4);
    assert_eq!(p.master_owned, 1);
    assert_eq!(p.slots[2].section, "secret");
    assert_eq!(p.slots[3].section, "subset");
    let base_only = page(
        &BinderQuery { include_secret: false, include_subset: false, include_promos: false, ..Default::default() },
        [1, 0, 0, 0],
    );
    assert_eq!(base_only.slots.len(), 2);
    assert!(base_only.slots.iter().all(|s| s.section == "base"));
}

#[test]
fn paginates() {
    let q = |page: i64| BinderQuery { page, layout: 2, ..Default::default() };
    let p1 = page(&q(1), [0; 4]);
    assert_eq!(p1.total_pages, 2);
    assert_eq!(p1.slots.len(), 2);
    assert_eq!(p1.slots[0].number, "1");
    let p2 = page(&q(2), [0; 4]);
    assert_eq!(p2.slots.len(), 2);
    assert_eq!(p2.slots[0].number, "3");
    let clamped = page(&q(99), [0; 4]);
    assert_eq!(clamped.page, 2);
}

#[test]
fn sorts_searches_and_filters() {
    let owned = [2, 1, 0, 0];
    let q = |sort: &str, filter: &str, search: &str| BinderQuery {
        sort: sort.into(),
        filter: filter.into(),
        search: search.into(),
        ..Default::default()
    };
    let desc = page(&q("number_desc", "all", ""), owned);
    assert_eq!(desc.slots[0].number, "GG01");
    assert_eq!(desc.slots[3].number, "1");
    for s in ["name", "name_desc", "price", "price_asc", "rarity", "rarity_asc"] {
        let p = get_binder_page(Some(set_151()), cards_151(), &printings_151(owned), &q(s, "all", ""));
        assert!(p.is_some(), "sort '{s}' should produce a page");
    }
    let need = page(&q("number", "need", ""), owned);
    assert_eq!(need.slots.len(), 2);
    assert!(need.slots.iter().all(|s| s.number == "3" || s.number == "GG01"));
    let have = page(&q("number", "have", ""), owned);
    assert_eq!(have.slots.len(), 2);
    assert_eq!(have.base_total, 2, "progress is pre-filter");
    let dupes = page(&q("number", "dupes", ""), owned);
    assert_eq!(dupes.slots.len(), 1);
    assert_eq!(dupes.slots[0].number, "1");
    let hit = page(&q("number", "all", "car"), owned);
    assert_eq!(hit.slots.len(), 4);
    let miss = page(&q("number", "all", "zzz"), owned);
    assert!(miss.slots.is_empty());
}

fn export_card(id: &str, num: &str, ns: i64, name: &str, tcg: Option<&str>, owned: bool) -> ExportCardRow {
    ExportCardRow {
        card_id: id.into(),
        number: num.into(),
        number_sortable: ns,
        name: name.into(),
        tcg_number: tcg.map(|s| s.to_string()),
        owned,
    }
}

#[test]
fn missing_export_lines_and_sections() {
    let tst = MissingSetInfo {
        name: "Test Set".into(),
        ptcgo_code: Some("TST".into()),
        printed_total: Some(2),
        tcg_abbrev: None,
    };
    let cards = vec![
        export_card("tst-1", "1", 1, "Bulbasaur", None, true),
        export_card("tst-2", "2", 2, "Ivysaur", None, false),
        export_card("tst-3", "3", 3, "Venusaur", None, false),
        export_card("tst-GG01", "GG01", 1_001, "Pikachu", None, false),
    ];
    let exp = missing_for_export("tst", Some(tst), cards).unwrap();
    assert_eq!(exp.ptcgo_code.as_deref(), Some("TST"));
    let nums: Vec<&str> = exp.cards.iter().map(|c| c.number.as_str()).collect();
    assert_eq!(nums, ["2", "3", "GG01"], "owned #1 excluded, rest ordered");
    let venusaur = exp.cards.iter().find(|c| c.number == "3").unwrap();
    assert_eq!(venusaur.section, "secret");
    assert_eq!(venusaur.mass_entry_line.as_deref(), Some("1 Venusaur [TST]"));
    assert_eq!(exp.cards.iter().find(|c| c.number == "GG01").unwrap().section, "subset");

    let noab = MissingSetInfo { name: "No Abbr".into(), ptcgo_code: None, printed_total: Some(1), tcg_abbrev: None };
    let noab = missing_for_export("noab", Some(noab), vec![export_card("noab-1", "1", 1, "Mew", None, false)]).unwrap();
    assert!(noab.ptcgo_code.is_none());
    assert_eq!(noab.cards.len(), 1);
    assert!(noab.cards[0].mass_entry_line.is_none());
}

#[test]
fn mass_entry_line_shapes() {
    assert_eq!(
        mass_entry_line("Mega Zeraora ex", "PBL", Some("027/084")),
        "1 Mega Zeraora ex - 027/084 [PBL]"
    );
    assert_eq!(mass_entry_line("Pineco", "SV01", None), "1 Pineco [SV01]");
}

#[test]
fn mass_entry_uses_tcgplayer_abbreviation_and_product_name_form() {
    let me1 = MissingSetInfo {
        name: "Mega Evolution".into(),
        ptcgo_code: Some("MEG".into()),
        printed_total: Some(132),
        tcg_abbrev: Some("MEG".into()),
    };
    let exp = missing_for_export("me1", Some(me1), vec![export_card("me1-138", "138", 138, "Vulpix", Some("138/132"), false)]).unwrap();
    let vulpix = exp.cards.iter().find(|c| c.number == "138").unwrap();
    assert_eq!(vulpix.mass_entry_line.as_deref(), Some("1 Vulpix - 138/132 [MEG]"));
}

#[test]
fn mass_entry_secret_rare_uses_padded_fraction_and_name_form() {
    let pbl = MissingSetInfo {
        name: "Pitch Black".into(),
        ptcgo_code: Some("PBL".into()),
        printed_total: Some(84),
        tcg_abbrev: Some("PBL".into()),
    };
    let exp = missing_for_export("pbl", Some(pbl), vec![export_card("pbl-85", "85", 85, "Fomantis", Some("085/084"), false)]).unwrap();
    let fomantis = exp.cards.iter().find(|c| c.number == "85").unwrap();
    assert_eq!(fomantis.mass_entry_line.as_deref(), Some("1 Fomantis - 085/084 [PBL]"));
}

#[test]
fn unknown_set_is_none() {
    assert!(get_binder_page(None, cards_151(), &printings_151([0; 4]), &BinderQuery::default()).is_none());
    assert!(missing_for_export("nope", None, vec![]).is_none());
}

#[test]
fn price_sort_puts_the_dearest_slot_first() {
    let mut prs = printings_151([0; 4]);
    prs[2].printing.market_price_bits = Some(25.0f64.to_bits());
    prs[0].printing.market_price_bits = Some(1.5f64.to_bits());
    let q = BinderQuery { sort: "price".into(), ..Default::default() };
    let p = get_binder_page(Some(set_151()), cards_151(), &prs, &q).unwrap();
    let nums: Vec<&str> = p.slots.iter().map(|s| s.number.as_str()).collect();
    assert_eq!(nums, ["3", "1", "2", "GG01"]);
    let q = BinderQuery { sort: "price_asc".into(), ..Default::default() };
    let p = get_binder_page(Some(set_151()), cards_151(), &prs, &q).unwrap();
    let nums: Vec<&str> = p.slots.iter().map(|s| s.number.as_str()).collect();
    assert_eq!(nums, ["2", "GG01", "1", "3"]);
}
