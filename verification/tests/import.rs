use pkdump_db::import::{
    annotate_owned, filter_report, plan_commit, resolve, tags_json, Catalog, CardRow, ImportFormat,
    ParsedRow, PrintingRow, SetRow,
};

#[test]
fn unknown_format_is_rejected() {
    assert!(ImportFormat::parse("nonsense").is_err());
    assert_eq!(ImportFormat::parse("collectr").unwrap(), ImportFormat::Collectr);
}

fn catalog() -> Catalog {
    Catalog {
        sets: vec![SetRow { set_code: "sv3pt5".into(), ptcgo_code: Some("MEW".into()), name: "151".into() }],
        cards: vec![CardRow {
            card_id: "sv3pt5-6".into(),
            set_code: "sv3pt5".into(),
            number: "6".into(),
            name: "Charizard ex".into(),
        }],
        printings: vec![PrintingRow {
            printing_id: "sv3pt5-6-normal".into(),
            card_id: "sv3pt5-6".into(),
            variant: "normal".into(),
            deprecated: false,
        }],
    }
}

fn parsed(line: u32, set: &str, name: &str, number: &str, variant: &str, price: Option<f64>) -> ParsedRow {
    ParsedRow {
        source_line: line,
        set_hint: set.into(),
        set_name: Some(name.into()),
        number: number.into(),
        variant: variant.into(),
        condition: "Near Mint".into(),
        language: "English".into(),
        purchase_price_bits: price.map(f64::to_bits),
        acquired_at: None,
        tags: vec![],
    }
}

/// The ManaBox sample: two normal copies of MEW #6, one foil (read as
/// holo) and an unknown set.
fn rows() -> Vec<ParsedRow> {
    vec![
        parsed(2, "MEW", "151", "6", "normal", Some(1.50)),
        parsed(2, "MEW", "151", "6", "normal", Some(1.50)),
        parsed(3, "MEW", "151", "6", "holo", Some(5.00)),
        parsed(4, "NOPE", "Mystery", "1", "normal", None),
    ]
}

#[test]
fn resolves_by_ptcgo_code_and_reports_misses() {
    let report = resolve(&catalog(), &rows());
    assert_eq!(report.matched.len(), 2);
    assert_eq!(report.matched[0].set_code, "sv3pt5");
    assert_eq!(report.matched[0].card_name, "Charizard ex");
    assert_eq!(report.matched[0].purchase_price_bits.map(f64::from_bits), Some(1.50));
    assert_eq!(report.unmatched.len(), 2);
    assert!(report.unmatched.iter().any(|u| u.reason.contains("variant 'holo'")));
    assert!(report.unmatched.iter().any(|u| u.reason.contains("unknown set 'NOPE'")));
}

#[test]
fn preview_flags_already_owned_copies() {
    let mut report = resolve(&catalog(), &rows());
    assert!(report.matched.iter().all(|r| r.already_owned == 0));
    annotate_owned(&mut report, &vec![("sv3pt5-6-normal".to_string(), 1)]);
    assert!(report.matched.iter().all(|r| r.printing_id != "sv3pt5-6-normal" || r.already_owned == 1));
}

#[test]
fn commit_selected_adds_only_included_lines() {
    let report = resolve(&catalog(), &vec![
        parsed(2, "MEW", "151", "6", "normal", None),
        parsed(3, "MEW", "151", "6", "normal", None),
    ]);
    let kept = filter_report(&report, &vec![3]);
    assert_eq!(kept.matched.len(), 1);
    assert_eq!(kept.matched[0].source_line, 3);
    assert!(kept.unmatched.is_empty());
}

#[test]
fn commit_adds_matched_rows_under_a_batch() {
    let report = resolve(&catalog(), &rows());
    let plan = plan_commit(&report, "csv_manabox", "csv_manabox", &Some("import.csv".to_string()));
    assert_eq!(plan.copies.len(), 2);
    assert_eq!(plan.skipped, 2);
    assert!(plan.copies.iter().all(|c| c.source == "csv_manabox"));
    assert_eq!(plan.batch_name.as_deref(), Some("import.csv"));
}

#[test]
fn tags_are_written_as_a_json_array() {
    assert_eq!(
        tags_json(&vec!["misprint".to_string(), "altered".to_string()]),
        "[\"misprint\",\"altered\"]"
    );
    assert_eq!(tags_json(&vec![]), "[]");
}
