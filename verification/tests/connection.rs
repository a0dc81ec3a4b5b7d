use pkdump_db::connection::{
    catalog_views, checkpoint_report, view_sql, WalCheckpoint, WalReclaim, RECLAIM_EVERY_MS,
};

#[test]
fn a_reclaim_is_due_only_once_its_period_has_passed() {
    let r = WalReclaim::new(1_000);
    assert_eq!(r.period_ms, RECLAIM_EVERY_MS);
    assert!(!r.due(1_000));
    assert!(!r.due(1_000 + RECLAIM_EVERY_MS - 1));
    assert!(r.due(1_000 + RECLAIM_EVERY_MS));
}

#[test]
fn a_checked_reclaim_waits_a_whole_period_again() {
    let mut r = WalReclaim::every(100, 0);
    assert!(r.due(150));
    r.checked(150);
    assert_eq!(r.last_ms, 150);
    assert!(!r.due(249));
    assert!(r.due(250));
    // A clock read from before the last check is no time at all.
    assert!(!r.due(10));
}

#[test]
fn a_zero_period_reclaims_on_every_call() {
    let r = WalReclaim::every(0, 42);
    assert!(r.due(42));
}

#[test]
fn a_busy_checkpoint_did_not_reset_the_wal() {
    assert_eq!(
        checkpoint_report(0, 12, 12),
        WalCheckpoint { reset: true, wal_frames: 12, checkpointed: 12 }
    );
    assert_eq!(
        checkpoint_report(1, 12, 4),
        WalCheckpoint { reset: false, wal_frames: 12, checkpointed: 4 }
    );
    assert_eq!(checkpoint_report(0, -1, -1).wal_frames, -1);
}

#[test]
fn a_stale_catalog_table_does_not_shade_the_collections_own() {
    let shared: Vec<String> = ["sets", "cards", "conditions", "sqlite_sequence", "printings"]
        .iter()
        .map(|s| s.to_string())
        .collect();
    let main: Vec<String> = ["collection", "conditions"].iter().map(|s| s.to_string()).collect();
    assert_eq!(catalog_views(&shared, &main), vec!["sets", "cards", "printings"]);
}

#[test]
fn a_catalog_name_is_exposed_by_a_quoted_temp_view() {
    assert_eq!(
        view_sql("cards"),
        "CREATE TEMP VIEW IF NOT EXISTS \"cards\" AS SELECT * FROM shared.\"cards\";"
    );
}
