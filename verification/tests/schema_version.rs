use pkdump_db::error::DbError;
use pkdump_db::schema_version::{
    file_label, gate, needs_stamp, version_of_file, Database, SchemaState,
};

#[test]
fn stamp_records_the_builds_version_and_re_stamping_is_a_no_op() {
    // An unversioned file needs the stamp; once it carries this build's
    // version, stamping again writes nothing.
    assert!(needs_stamp(Database::User, 0));
    assert!(!needs_stamp(Database::User, Database::User.version()));
}

#[test]
fn an_unversioned_database_is_adopted_not_refused() {
    assert_eq!(gate(Database::Shared, 0, "shared.sqlite").unwrap(), 0);
}

#[test]
fn a_database_from_the_future_is_refused_naming_both_versions() {
    let ahead = Database::User.version() + 1;
    let err = gate(Database::User, ahead, "/data/tenants/alice.sqlite").unwrap_err();
    let msg = match err {
        DbError::SchemaVersion(m) => m,
        other => panic!("wrong kind: {other:?}"),
    };
    assert!(msg.contains(Database::User.label()), "no database: {msg}");
    assert!(msg.contains(&ahead.to_string()), "no file version: {msg}");
    assert!(msg.contains(&Database::User.version().to_string()), "no binary version: {msg}");
    assert!(msg.contains("/data/tenants/alice.sqlite"), "no file: {msg}");
}

#[test]
fn the_version_this_build_writes_is_one_it_accepts() {
    let v = Database::Shared.version();
    assert_eq!(gate(Database::Shared, v, "shared.sqlite").unwrap(), v);
}

#[test]
fn ahead_is_exactly_what_the_gate_refuses() {
    let known = Database::User.version();
    for found in 0..=known + 2 {
        let state = Database::User.state_of(found);
        let expected = match found {
            f if f < known => SchemaState::Behind,
            f if f == known => SchemaState::Current,
            _ => SchemaState::Ahead,
        };
        assert_eq!(state, expected, "version {found} against this build's {known}");
        assert_eq!(
            gate(Database::User, found, "collection.sqlite").is_err(),
            state == SchemaState::Ahead,
            "version {found} reported {} but gate() disagreed",
            state.label()
        );
    }
}

#[test]
fn a_file_from_the_future_still_reports_its_version() {
    let ahead = Database::User.version() + 1;
    assert_eq!(version_of_file("collection.sqlite", Ok(ahead)).unwrap(), ahead);
    assert_eq!(Database::User.state_of(ahead), SchemaState::Ahead);
}

#[test]
fn reading_a_missing_file_is_an_error_not_a_zero() {
    let err = version_of_file("/tmp/x/gone.sqlite", Err("unable to open database file".into()))
        .unwrap_err();
    let msg = match err {
        DbError::Env(m) => m,
        other => panic!("wrong kind: {other:?}"),
    };
    assert!(msg.contains("gone.sqlite"), "must name the file: {msg}");
    assert_eq!(
        msg,
        "reading the schema version of /tmp/x/gone.sqlite: unable to open database file"
    );
}

#[test]
fn the_attached_gate_reads_the_attached_file() {
    let ahead = Database::Shared.version() + 1;
    // `main` is fine; the attached catalog is from the future.
    assert!(gate(Database::User, Database::User.version(), "collection.sqlite").is_ok());
    let file = file_label(Some("/data/shared.sqlite".into()), "shared");
    let err = gate(Database::Shared, ahead, &file).unwrap_err();
    assert!(matches!(&err, DbError::SchemaVersion(m) if m.contains("shared.sqlite")));
}

#[test]
fn the_attached_gate_accepts_a_catalog_that_is_behind() {
    assert_eq!(gate(Database::Shared, 0, "shared.sqlite").unwrap(), 0);
}

#[test]
fn an_unnamed_file_is_labelled_by_its_schema() {
    assert_eq!(file_label(None, "shared"), "<shared>");
    assert_eq!(file_label(Some(String::new()), "main"), "<main>");
    assert_eq!(file_label(Some("a.sqlite".into()), "main"), "a.sqlite");
}

#[test]
fn every_database_has_a_label_and_a_version() {
    assert_eq!(Database::Shared.label(), "shared catalog");
    assert_eq!(Database::User.label(), "collection");
    assert_eq!(Database::Registry.label(), "tenant registry");
    assert_eq!(SchemaState::Behind.label(), "behind");
    assert_eq!(SchemaState::Current.label(), "current");
    assert_eq!(SchemaState::Ahead.label(), "ahead");
    assert!(Database::Registry.version() >= 1);
}

#[test]
fn every_database_refuses_a_file_from_the_future() {
    for (db, file) in [
        (Database::Shared, "shared.sqlite"),
        (Database::User, "collection.sqlite"),
        (Database::Registry, "registry.sqlite"),
    ] {
        assert!(gate(db, db.version() + 1, file).is_err(), "{} is not gated", db.label());
        assert_eq!(gate(db, db.version(), file).unwrap(), db.version());
    }
}
