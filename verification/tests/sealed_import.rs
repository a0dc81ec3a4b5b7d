use pkdump_db::import::{Catalog, SetRow};
use pkdump_db::sealed_import::{
    filter_sealed, match_name, normalize_name, resolve_sealed, sealed_commit_result, NameMatch,
    ParsedSealedRow, SealedCandidate,
};

fn set(code: &str, ptcgo: &str, name: &str) -> SetRow {
    SetRow { set_code: code.into(), ptcgo_code: Some(ptcgo.into()), name: name.into() }
}

fn product(id: i64, set: Option<&str>, name: &str, category: &str) -> SealedCandidate {
    SealedCandidate { product_id: id, name: name.into(), category: category.into(), set_code: set.map(|s| s.to_string()) }
}

fn db() -> (Catalog, Vec<SealedCandidate>) {
    let cat = Catalog { sets: vec![set("jtg", "JTG", "Journey Together")], cards: vec![], printings: vec![] };
    let products = vec![
        product(6001, Some("jtg"), "Journey Together Elite Trainer Box", "elite_trainer_box"),
        product(6002, Some("jtg"), "Journey Together Booster Bundle", "booster_bundle"),
        product(6003, Some("jtg"), "Journey Together 3 Pack Blister [Scrafty]", "blister"),
        product(6004, Some("jtg"), "Journey Together 3 Pack Blister [Yanmega]", "blister"),
    ];
    (cat, products)
}

fn row(name: &str, set: &str, qty: u32) -> ParsedSealedRow {
    ParsedSealedRow {
        source_line: 2,
        name: name.into(),
        set_hint: set.into(),
        set_name: Some(set.into()),
        category_hint: None,
        quantity: qty,
        condition: "Near Mint".into(),
        purchase_price_bits: Some(75.0f64.to_bits()),
        purchase_date: Some("2026-02-28".into()),
        notes: None,
    }
}

#[test]
fn resolves_exact_name_and_keeps_quantity() {
    let (cat, products) = db();
    let rows = vec![row("Journey Together Elite Trainer Box", "Journey Together", 3)];
    let report = resolve_sealed(&cat, &products, &rows);
    assert_eq!(report.matched.len(), 1);
    assert_eq!(report.matched[0].product_id, 6001);
    assert_eq!(report.matched[0].quantity, 3);
    assert!(report.unmatched.is_empty());
}

#[test]
fn commit_writes_one_row_with_quantity() {
    let (cat, products) = db();
    let rows = vec![row("Journey Together Elite Trainer Box", "Journey Together", 3)];
    let report = resolve_sealed(&cat, &products, &rows);
    let result = sealed_commit_result(&report);
    assert_eq!(result.added, 1);
    assert_eq!(report.matched[0].quantity, 3);
    assert_eq!(report.matched[0].purchase_date.as_deref(), Some("2026-02-28"));
}

#[test]
fn unknown_set_and_unknown_product_are_reported() {
    let (cat, products) = db();
    let rows = vec![row("Some Box", "No Such Set", 1), row("Nonexistent Product", "Journey Together", 1)];
    let report = resolve_sealed(&cat, &products, &rows);
    assert!(report.matched.is_empty());
    assert_eq!(report.unmatched.len(), 2);
    assert!(report.unmatched[0].reason.contains("any set"), "{:?}", report.unmatched[0]);
    assert!(report.unmatched[0].reason.contains("No Such Set"));
    assert!(report.unmatched[1].reason.contains("no sealed product"));
}

#[test]
fn distinct_blister_variants_do_not_collide() {
    let (cat, products) = db();
    let rows = vec![row("Journey Together 3 Pack Blister [Yanmega]", "Journey Together", 4)];
    let report = resolve_sealed(&cat, &products, &rows);
    assert_eq!(report.matched.len(), 1, "{:?}", report.unmatched);
    assert_eq!(report.matched[0].product_id, 6004);
}

fn null_set_db() -> (Catalog, Vec<SealedCandidate>) {
    let cat = Catalog { sets: vec![set("sv8pt5", "PRE", "Prismatic Evolutions")], cards: vec![], printings: vec![] };
    let products = vec![
        product(654213, None, "Mega Charizard X ex Ultra Premium Collection", "upc"),
        product(656997, None, "Team Rocket\u{2019}s Moltres ex Ultra-Premium Collection", "upc"),
        product(622770, Some("sv8pt5"), "Prismatic Evolutions Super-Premium Collection", "spc"),
    ];
    (cat, products)
}

fn misc_sealed(name: &str) -> ParsedSealedRow {
    ParsedSealedRow {
        source_line: 2,
        name: name.into(),
        set_hint: "Miscellaneous Cards & Products".into(),
        set_name: Some("Miscellaneous Cards & Products".into()),
        category_hint: None,
        quantity: 1,
        condition: "Near Mint".into(),
        purchase_price_bits: None,
        purchase_date: None,
        notes: None,
    }
}

#[test]
fn null_set_code_product_resolves_by_global_name() {
    let (cat, products) = null_set_db();
    let report = resolve_sealed(&cat, &products, &vec![misc_sealed("Mega Charizard X ex Ultra Premium Collection")]);
    assert_eq!(report.matched.len(), 1, "{:?}", report.unmatched);
    assert_eq!(report.matched[0].product_id, 654213);
    assert_eq!(report.matched[0].set_code, None);
}

#[test]
fn global_fallback_folds_hyphens_and_apostrophes() {
    let (cat, products) = null_set_db();
    let r1 = resolve_sealed(&cat, &products, &vec![misc_sealed("Prismatic Evolutions Super Premium Collection")]);
    assert_eq!(r1.matched.len(), 1, "{:?}", r1.unmatched);
    assert_eq!(r1.matched[0].product_id, 622770);
    let r2 = resolve_sealed(&cat, &products, &vec![misc_sealed("Team Rocket's Moltres ex Ultra Premium Collection")]);
    assert_eq!(r2.matched.len(), 1, "{:?}", r2.unmatched);
    assert_eq!(r2.matched[0].product_id, 656997);
}

#[test]
fn normalization_folds_case_accents_dashes_and_spaces() {
    assert_eq!(normalize_name("  Pokémon  TCG\u{2014}Elite   Box  "), "pokemon tcg elite box");
    assert_eq!(normalize_name("Team Rocket\u{2019}s"), "team rocket's");
    assert_eq!(normalize_name(""), "");
}

#[test]
fn an_ambiguous_name_lists_every_candidate() {
    let (cat, products) = db();
    match match_name("Journey Together 3 Pack Blister", &products) {
        NameMatch::Ambiguous(ks) => assert_eq!(ks, vec![2, 3]),
        other => panic!("expected ambiguity, got {other:?}"),
    }
    let report = resolve_sealed(&cat, &products, &vec![row("Journey Together 3 Pack Blister", "Journey Together", 1)]);
    assert_eq!(report.unmatched.len(), 1);
    assert_eq!(
        report.unmatched[0].reason,
        "ambiguous in jtg: matches Journey Together 3 Pack Blister [Scrafty], Journey Together 3 Pack Blister [Yanmega]"
    );
}

#[test]
fn filtering_keeps_only_selected_lines() {
    let (cat, products) = db();
    let mut a = row("Journey Together Elite Trainer Box", "Journey Together", 1);
    a.source_line = 2;
    let mut b = row("Journey Together Booster Bundle", "Journey Together", 1);
    b.source_line = 3;
    let report = resolve_sealed(&cat, &products, &vec![a, b]);
    let kept = filter_sealed(&report, &vec![3]);
    assert_eq!(kept.matched.len(), 1);
    assert_eq!(kept.matched[0].product_id, 6002);
    assert!(kept.unmatched.is_empty());
}

#[test]
fn committing_sealed_rows_keeps_each_quantity_and_names_the_source() {
    let (cat, products) = db();
    let report = resolve_sealed(
        &cat,
        &products,
        &vec![row("Journey Together Elite Trainer Box", "Journey Together", 3)],
    );
    let plan = pkdump_db::sealed_import::plan_sealed_commit(&report, "collectr");
    assert_eq!(plan.len(), 1);
    assert_eq!(plan[0].product_id, 6001);
    assert_eq!(plan[0].quantity, Some(3));
    assert_eq!(plan[0].source.as_deref(), Some("collectr"));
    assert_eq!(plan[0].condition.as_deref(), Some("Near Mint"));
    assert_eq!(plan[0].purchase_price_bits.map(f64::from_bits), Some(75.0));
    assert_eq!(plan[0].seller_name, None);
}

#[test]
fn accented_e_folds_the_same_in_either_case() {
    for (upper, lower) in [("È", "è"), ("É", "é"), ("Ë", "ë")] {
        assert_eq!(normalize_name(upper), "e");
        assert_eq!(normalize_name(lower), "e");
    }
    assert_eq!(normalize_name("POKÉMON"), normalize_name("Pokémon"));
    assert_eq!(normalize_name("CAFÈ NOËL"), "cafe noel");
}
