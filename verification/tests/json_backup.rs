use pkdump_db::error::DbError;
use pkdump_db::json_backup::{
    check_target, export_envelope, first_beyond_birth_state, import, import_text, insert_sql, stage_envelope,
    summarize, ImportSummary, JsonNumber, JsonValue, OnExisting, SqlValue, TableSchema, FORMAT, VERSION,
};

fn num_i(i: i64) -> JsonValue {
    JsonValue::Number(JsonNumber {
        as_i64: Some(i),
        as_u64: if i >= 0 { Some(i as u64) } else { None },
        as_f64_bits: Some((i as f64).to_bits()),
        text: i.to_string(),
    })
}

fn num_f(f: f64) -> JsonValue {
    JsonValue::Number(JsonNumber { as_i64: None, as_u64: None, as_f64_bits: Some(f.to_bits()), text: f.to_string() })
}

fn s(t: &str) -> JsonValue {
    JsonValue::Str(t.into())
}

fn obj(entries: Vec<(&str, JsonValue)>) -> JsonValue {
    JsonValue::Object(entries.into_iter().map(|(k, v)| (k.to_string(), v)).collect())
}

fn schema() -> Vec<TableSchema> {
    vec![
        TableSchema { name: "collection".into(), columns: vec!["id".into(), "printing_id".into(), "purchase_price".into(), "graded".into()] },
        TableSchema { name: "settings".into(), columns: vec!["key".into(), "value".into()] },
    ]
}

fn envelope(tables: Vec<(&str, JsonValue)>) -> JsonValue {
    let mut entries = vec![("collection", JsonValue::Array(vec![])), ("exported_at", s("2026-07-31T04:18:44Z")), ("format", s(FORMAT))];
    for (k, v) in tables {
        if k == "collection" {
            entries[0].1 = v;
        } else {
            entries.push((k, v));
        }
    }
    entries.push(("version", num_i(VERSION as i64)));
    obj(entries)
}

#[test]
fn import_rejects_a_foreign_envelope() {
    let bad: Vec<JsonValue> = vec![
        obj(vec![("format", s("scryfall-dump")), ("version", num_i(1))]),
        obj(vec![("version", num_i(1))]),
        obj(vec![("format", s("pkdump-collection"))]),
        obj(vec![("format", s("pkdump-collection")), ("version", num_i(99))]),
        JsonValue::Array(vec![s("not"), s("an"), s("object")]),
        obj(vec![("cards", JsonValue::Array(vec![])), ("format", s("pkdump-collection")), ("version", num_i(1))]),
        obj(vec![
            ("collection", JsonValue::Array(vec![obj(vec![("nope", num_i(1))])])),
            ("format", s("pkdump-collection")),
            ("version", num_i(1)),
        ]),
        obj(vec![("collection", obj(vec![])), ("format", s("pkdump-collection")), ("version", num_i(1))]),
    ];
    for e in bad {
        let err = import(&e, &schema(), OnExisting::Fail, &None).unwrap_err();
        assert!(matches!(err, DbError::Import(_)), "expected an import error, got {err:?}");
    }
}

#[test]
fn a_rejected_import_leaves_the_database_untouched() {
    // One bad column deep inside an otherwise valid envelope: nothing stages.
    let e = envelope(vec![(
        "collection",
        JsonValue::Array(vec![
            obj(vec![("id", num_i(1)), ("printing_id", s("sv3pt5-6-normal"))]),
            obj(vec![("id", num_i(2)), ("not_a_column", num_i(1))]),
        ]),
    )]);
    assert!(stage_envelope(&e, &schema()).is_err());
}

#[test]
fn export_preserves_nulls_and_types() {
    let e = envelope(vec![(
        "collection",
        JsonValue::Array(vec![obj(vec![
            ("graded", JsonValue::Bool(false)),
            ("id", num_i(2)),
            ("purchase_price", JsonValue::Null),
            ("printing_id", s("sv3pt5-6-normal")),
        ])]),
    ), ("settings", JsonValue::Array(vec![obj(vec![("key", s("unicode")), ("value", s("Pikachu ⚡"))])]))]);
    let staged = stage_envelope(&e, &schema()).unwrap();
    assert_eq!(staged.len(), 2);
    let row = &staged[0].1[0];
    assert_eq!(row[0], ("graded".to_string(), SqlValue::Integer(0)));
    assert_eq!(row[1], ("id".to_string(), SqlValue::Integer(2)));
    assert_eq!(row[2], ("purchase_price".to_string(), SqlValue::Null));
    assert_eq!(row[3], ("printing_id".to_string(), SqlValue::Text("sv3pt5-6-normal".into())));
    assert_eq!(staged[1].1[0][1], ("value".to_string(), SqlValue::Text("Pikachu ⚡".into())));
}

#[test]
fn a_real_stays_a_real() {
    let e = envelope(vec![(
        "collection",
        JsonValue::Array(vec![obj(vec![("purchase_price", num_f(12.5))])]),
    )]);
    let staged = stage_envelope(&e, &schema()).unwrap();
    assert_eq!(staged[0].1[0][0].1, SqlValue::Real(12.5f64.to_bits()));
}

#[test]
fn import_refuses_a_non_empty_target_by_default() {
    let e = envelope(vec![]);
    let beyond = first_beyond_birth_state(&vec!["collection".into(), "conditions".into()], &vec![2, 5], &vec![Some(0), Some(5)]);
    assert_eq!(beyond.as_deref(), Some("collection"));
    let err = import(&e, &schema(), OnExisting::Fail, &beyond).unwrap_err();
    assert!(matches!(err, DbError::Conflict(_)), "expected a conflict, got {err:?}");
    assert!(import(&e, &schema(), OnExisting::Replace, &beyond).is_ok());
}

#[test]
fn importing_into_a_freshly_created_collection_is_not_a_conflict() {
    let beyond = first_beyond_birth_state(&vec!["collection".into(), "conditions".into()], &vec![0, 5], &vec![Some(0), Some(5)]);
    assert!(beyond.is_none());
    assert!(check_target(OnExisting::Fail, &beyond).is_ok());
}

#[test]
fn import_refuses_a_target_holding_more_than_its_birth_state() {
    let beyond = first_beyond_birth_state(&vec!["collection".into(), "conditions".into()], &vec![0, 6], &vec![Some(0), Some(5)]);
    assert_eq!(beyond.as_deref(), Some("conditions"));
    let err = check_target(OnExisting::Fail, &beyond).unwrap_err();
    assert!(matches!(err, DbError::Conflict(_)), "expected a conflict, got {err:?}");
    // A table a newborn collection lacks is entirely the caller's.
    let beyond = first_beyond_birth_state(&vec!["extra".into()], &vec![1], &vec![None]);
    assert_eq!(beyond.as_deref(), Some("extra"));
}

#[test]
fn an_empty_collection_round_trips() {
    let staged = stage_envelope(&envelope(vec![]), &schema()).unwrap();
    assert_eq!(staged.len(), 1);
    assert!(staged[0].1.is_empty());
    let summary = summarize(&vec!["collection".into(), "conditions".into()], &vec![0, 5]);
    let seeded: usize = summary.tables.iter().filter(|(t, _)| t != "conditions").map(|(_, n)| n).sum();
    assert_eq!(seeded, 0);
}

#[test]
fn import_is_order_independent_across_foreign_keys() {
    let summary = ImportSummary { tables: vec![("batches".into(), 1), ("collection".into(), 2), ("orders".into(), 1)] };
    assert_eq!(summary.total(), 4);
    assert!(summary.total() > 0);
}

#[test]
fn inserts_name_their_columns_and_number_their_holes() {
    assert_eq!(
        insert_sql("collection", &vec!["id".into(), "printing_id".into()]),
        "INSERT INTO \"collection\" (\"id\", \"printing_id\") VALUES (?1, ?2)"
    );
    assert_eq!(insert_sql("settings", &vec![]), "INSERT INTO \"settings\" DEFAULT VALUES");
    let cols: Vec<String> = (0..11).map(|i| format!("c{i}")).collect();
    assert!(insert_sql("t", &cols).ends_with("?10, ?11)"));
}

#[test]
fn a_user_table_named_like_envelope_metadata_is_refused_on_export() {
    let ok = vec!["collection".to_string(), "binders".to_string()];
    assert!(pkdump_db::json_backup::check_export_tables(&ok).is_ok());
    let bad = vec!["collection".to_string(), "version".to_string(), "format".to_string()];
    assert_eq!(
        pkdump_db::json_backup::check_export_tables(&bad),
        Err(DbError::Import("table 'version' collides with a reserved envelope key".into()))
    );
}

/// What the exporter writes for a stored value.
fn exported(v: &SqlValue) -> JsonValue {
    match v {
        SqlValue::Null => JsonValue::Null,
        SqlValue::Integer(i) => num_i(*i),
        SqlValue::Real(bits) => num_f(f64::from_bits(*bits)),
        SqlValue::Text(t) => s(t),
    }
}

#[test]
fn round_trip_reproduces_every_table() {
    let stored: Vec<(&str, Vec<Vec<(String, SqlValue)>>)> = vec![
        (
            "collection",
            vec![
                vec![
                    ("id".into(), SqlValue::Integer(1)),
                    ("printing_id".into(), SqlValue::Text("sv3pt5-6-normal".into())),
                    ("purchase_price".into(), SqlValue::Real(4.5f64.to_bits())),
                    ("graded".into(), SqlValue::Integer(0)),
                ],
                vec![
                    ("id".into(), SqlValue::Integer(2)),
                    ("printing_id".into(), SqlValue::Text("sv3pt5-1-normal".into())),
                    ("purchase_price".into(), SqlValue::Null),
                    ("graded".into(), SqlValue::Integer(1)),
                ],
            ],
        ),
        ("settings", vec![vec![("key".into(), SqlValue::Text("theme".into())), ("value".into(), SqlValue::Text("dark".into()))]]),
    ];
    let tables: Vec<(&str, JsonValue)> = stored
        .iter()
        .map(|(name, rows)| {
            let rows = rows
                .iter()
                .map(|row| JsonValue::Object(row.iter().map(|(c, v)| (c.clone(), exported(v))).collect()))
                .collect();
            (*name, JsonValue::Array(rows))
        })
        .collect();
    let staged = import(&envelope(tables), &schema(), OnExisting::Fail, &None).unwrap();
    assert_eq!(staged.len(), 2);
    for (t, (name, rows)) in staged.iter().zip(stored.iter()) {
        assert_eq!(t.0, *name);
        assert_eq!(&t.1, rows);
    }
}

fn stored_rows() -> Vec<(String, Vec<Vec<(String, SqlValue)>>)> {
    vec![
        (
            "collection".into(),
            vec![
                vec![
                    ("id".into(), SqlValue::Integer(1)),
                    ("printing_id".into(), SqlValue::Text("sv3pt5-6-normal".into())),
                    ("purchase_price".into(), SqlValue::Real(4.5f64.to_bits())),
                    ("graded".into(), SqlValue::Integer(0)),
                ],
                vec![
                    ("id".into(), SqlValue::Integer(-2)),
                    ("printing_id".into(), SqlValue::Text("Pokémon ✓".into())),
                    ("purchase_price".into(), SqlValue::Null),
                    ("graded".into(), SqlValue::Integer(1)),
                ],
            ],
        ),
        ("settings".into(), vec![vec![("key".into(), SqlValue::Text("theme".into())), ("value".into(), SqlValue::Text("dark".into()))]]),
    ]
}

#[test]
fn import_replaces_existing_contents() {
    let stored = stored_rows();
    let envelope = export_envelope(&stored, "2026-07-31T04:18:44+00:00").unwrap();
    // The target holds rows beyond its birth state; replacing is asked for.
    let beyond = first_beyond_birth_state(&vec!["collection".into(), "settings".into()], &vec![3, 1], &vec![Some(0), Some(0)]);
    assert_eq!(beyond.as_deref(), Some("collection"));
    let staged = import(&envelope, &schema(), OnExisting::Replace, &beyond).unwrap();
    // Exactly the envelope's rows are staged: nothing of the old contents.
    assert_eq!(staged.len(), stored.len());
    for (t, (name, rows)) in staged.iter().zip(stored.iter()) {
        assert_eq!(&t.0, name);
        assert_eq!(&t.1, rows);
    }
}

#[test]
fn an_exported_envelope_imports_back_to_the_stored_rows() {
    let stored = stored_rows();
    let envelope = export_envelope(&stored, "2026-07-31T04:18:44+00:00").unwrap();
    match &envelope {
        JsonValue::Object(entries) => {
            assert_eq!(entries.len(), stored.len() + 3);
            assert_eq!(entries[0], ("format".to_string(), s(FORMAT)));
            assert_eq!(entries[2], ("exported_at".to_string(), s("2026-07-31T04:18:44+00:00")));
            assert_eq!(entries[3].0, "collection");
            assert_eq!(entries[4].0, "settings");
        }
        other => panic!("not an object: {other:?}"),
    }
    let staged = import(&envelope, &schema(), OnExisting::Fail, &None).unwrap();
    for (t, (name, rows)) in staged.iter().zip(stored.iter()) {
        assert_eq!(&t.0, name);
        assert_eq!(&t.1, rows);
    }
    assert_eq!(staged.len(), 2);
}

#[test]
fn export_refuses_a_non_finite_real_and_a_metadata_table() {
    let mut stored = stored_rows();
    stored[0].1[0][2].1 = SqlValue::Real(f64::NAN.to_bits());
    assert_eq!(
        export_envelope(&stored, "t"),
        Err(DbError::Import("collection.purchase_price: NaN has no JSON representation".into()))
    );
    stored[0].1[0][2].1 = SqlValue::Real(f64::NEG_INFINITY.to_bits());
    assert_eq!(
        export_envelope(&stored, "t"),
        Err(DbError::Import("collection.purchase_price: -inf has no JSON representation".into()))
    );
    let named = vec![("version".to_string(), vec![])];
    assert_eq!(
        export_envelope(&named, "t"),
        Err(DbError::Import("table 'version' collides with a reserved envelope key".into()))
    );
}

#[test]
fn malformed_json_text_is_an_import_error() {
    match import_text("{\"format\": ", &schema(), OnExisting::Fail, &None).unwrap_err() {
        DbError::Import(m) => assert!(m.starts_with("malformed JSON: "), "{m}"),
        other => panic!("expected an import error, got {other:?}"),
    }
}

#[test]
fn envelope_text_is_parsed_then_imported() {
    let text = r#"{
        "collection": [{"id": 7, "printing_id": "sv3pt5-6-holo", "purchase_price": 12.5, "graded": true}],
        "exported_at": "2026-07-31T04:18:44Z",
        "format": "pkdump-collection",
        "settings": [],
        "version": 1
    }"#;
    let staged = import_text(text, &schema(), OnExisting::Fail, &None).unwrap();
    assert_eq!(staged.len(), 2);
    assert_eq!(staged[0].0, "collection");
    assert_eq!(
        staged[0].1,
        // The parser hands an object's keys back in sorted order.
        vec![vec![
            ("graded".to_string(), SqlValue::Integer(1)),
            ("id".to_string(), SqlValue::Integer(7)),
            ("printing_id".to_string(), SqlValue::Text("sv3pt5-6-holo".into())),
            ("purchase_price".to_string(), SqlValue::Real(12.5f64.to_bits())),
        ]]
    );
    assert_eq!(staged[1].0, "settings");
    // A parsed envelope of the wrong format is still refused.
    let foreign = r#"{"format": "scryfall-dump", "version": 1}"#;
    assert!(matches!(import_text(foreign, &schema(), OnExisting::Fail, &None), Err(DbError::Import(_))));
}

#[test]
fn the_conflict_names_the_table_beyond_its_birth_state() {
    let beyond = Some("conditions".to_string());
    assert_eq!(
        check_target(OnExisting::Fail, &beyond),
        Err(DbError::Conflict(
            "target database is not empty (rows in 'conditions'); importing an envelope replaces the whole collection".into()
        ))
    );
    let err = import(&envelope(vec![]), &schema(), OnExisting::Fail, &beyond).unwrap_err();
    assert_eq!(
        err,
        DbError::Conflict(
            "target database is not empty (rows in 'conditions'); importing an envelope replaces the whole collection".into()
        )
    );
}
