use pkdump_db::raw_derivation::{for_date, record, ProvenanceRow, RawDerivation};

fn row(dataset: &str, run: &str, parts: i64) -> RawDerivation {
    RawDerivation {
        ingest_date: "2026-08-11".to_string(),
        source: "tcgcsv".to_string(),
        dataset: dataset.to_string(),
        run_id: run.to_string(),
        parts,
        complete: true,
        observed_at: "2026-08-11".to_string(),
    }
}

#[test]
fn re_deriving_a_date_replaces_its_provenance() {
    let mut table: Vec<ProvenanceRow> = Vec::new();
    let n = record(
        &mut table,
        "2026-08-11",
        &"2026-08-11T05:00:00Z".to_string(),
        &vec![row("groups", "RUN_A", 1), row("prices", "RUN_A", 4)],
    );
    assert_eq!(n, 2);
    record(
        &mut table,
        "2026-08-11",
        &"2026-08-12T05:00:00Z".to_string(),
        &vec![row("groups", "RUN_B", 1), row("prices", "RUN_B", 4)],
    );

    let back = for_date(&table, "2026-08-11");
    assert_eq!(back.len(), 2);
    assert!(back.iter().all(|r| r.run_id == "RUN_B"));
    assert!(table.iter().all(|p| p.derived_at == "2026-08-12T05:00:00Z"));
}

#[test]
fn another_date_is_untouched() {
    let mut table: Vec<ProvenanceRow> = Vec::new();
    let mut old = row("groups", "RUN_OLD", 1);
    old.ingest_date = "2026-08-10".to_string();
    old.observed_at = "2026-08-10".to_string();
    record(&mut table, "2026-08-10", &"2026-08-10T05:00:00Z".to_string(), &vec![old]);
    record(&mut table, "2026-08-11", &"2026-08-11T05:00:00Z".to_string(), &vec![row("groups", "RUN_NEW", 1)]);

    assert_eq!(for_date(&table, "2026-08-10")[0].run_id, "RUN_OLD");
    assert_eq!(for_date(&table, "2026-08-11")[0].run_id, "RUN_NEW");
}

#[test]
fn the_observation_day_can_differ_from_the_partition() {
    let mut table: Vec<ProvenanceRow> = Vec::new();
    let mut crossed = row("prices", "RUN_MIDNIGHT", 2);
    crossed.observed_at = "2026-08-10".to_string();
    record(&mut table, "2026-08-11", &"2026-08-11T00:00:30Z".to_string(), &vec![crossed]);

    let back = &for_date(&table, "2026-08-11")[0];
    assert_eq!(back.ingest_date, "2026-08-11");
    assert_eq!(back.observed_at, "2026-08-10");
}

#[test]
fn recording_a_date_twice_is_recording_it_once() {
    let rows = vec![row("groups", "RUN_A", 1), row("prices", "RUN_A", 4)];
    let at = "2026-08-11T05:00:00Z".to_string();
    let mut once: Vec<ProvenanceRow> = Vec::new();
    record(&mut once, "2026-08-11", &at, &rows);
    let mut twice = once.clone();
    record(&mut twice, "2026-08-11", &at, &rows);
    assert_eq!(once, twice);
}

#[test]
fn a_dates_rows_come_back_by_source_then_dataset() {
    let mut a = row("prices", "R", 1);
    a.source = "zeta".into();
    let b = row("prices", "R", 1);
    let c = row("groups", "R", 1);
    let mut table: Vec<ProvenanceRow> = Vec::new();
    record(&mut table, "2026-08-11", &"t".to_string(), &vec![a, b, c]);
    let back: Vec<(String, String)> = for_date(&table, "2026-08-11")
        .into_iter()
        .map(|r| (r.source, r.dataset))
        .collect();
    assert_eq!(
        back,
        vec![
            ("tcgcsv".to_string(), "groups".to_string()),
            ("tcgcsv".to_string(), "prices".to_string()),
            ("zeta".to_string(), "prices".to_string()),
        ]
    );
}
