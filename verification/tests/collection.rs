use pkdump_db::clock::{pin, Clock};
use pkdump_db::collection::{
    add, change_printing, latest_for_printing, move_to, set_status, update, CollectionEntry,
    CopyEdit, Movement, NewCopy,
};
use pkdump_db::error::DbError;

fn a_copy() -> NewCopy {
    NewCopy {
        printing_id: "sv3pt5-1-normal".into(),
        condition: None,
        language: None,
        purchase_price_bits: None,
        acquired_at: None,
        source: "manual_id".into(),
        status: None,
        notes: None,
        order_id: None,
        binder_id: None,
        deck_id: None,
        batch_id: None,
    }
}

fn stored(id: i64, new: &NewCopy, acquired_at: &str, status: &str) -> CollectionEntry {
    CollectionEntry {
        id,
        printing_id: new.printing_id.clone(),
        condition: "Near Mint".into(),
        language: "English".into(),
        purchase_price_bits: None,
        sale_price_bits: None,
        acquired_at: acquired_at.into(),
        source: new.source.clone(),
        notes: None,
        tags: None,
        graded: false,
        grade_company: None,
        grade_value_bits: None,
        grade_cert: None,
        status: status.into(),
        order_id: None,
        binder_id: None,
        deck_id: None,
        batch_id: None,
    }
}

const MINUTE: i128 = 60 * 1_000_000_000;

#[test]
fn add_and_get_round_trip() {
    let mut clock = Clock::wall();
    let copy = add(&a_copy(), true, &mut clock).unwrap();
    assert_eq!(copy.printing_id, "sv3pt5-1-normal");
    assert_eq!(copy.condition, "Near Mint"); // default
    assert_eq!(copy.status, "owned"); // default
    assert_eq!(copy.language, "English");
    // The opening status_log entry is stamped.
    assert!(!copy.logged_at.is_empty());
}

#[test]
fn add_rejects_unknown_printing() {
    let mut clock = Clock::wall();
    let new = NewCopy { printing_id: "sv3pt5-1-mysteryfoil".into(), ..a_copy() };
    let err = add(&new, false, &mut clock).unwrap_err();
    assert!(matches!(err, DbError::NotFound(_)));
    assert_eq!(
        err,
        DbError::NotFound("printing 'sv3pt5-1-mysteryfoil' is not in the catalog".into())
    );
}

#[test]
fn add_rejects_a_binder_and_a_deck_at_once() {
    let mut clock = Clock::wall();
    let new = NewCopy { binder_id: Some(1), deck_id: Some(1), ..a_copy() };
    assert!(matches!(add(&new, true, &mut clock), Err(DbError::Conflict(_))));
    // An unknown printing is reported before the placement conflict.
    assert!(matches!(add(&new, false, &mut clock), Err(DbError::NotFound(_))));
}

#[test]
fn add_stamps_from_a_pinned_clock() {
    let mut clock = Clock::wall();
    pin(&mut clock, 1_700_000_000 * 1_000_000_000, MINUTE);
    let copy = add(&a_copy(), true, &mut clock).unwrap();
    assert_eq!(copy.acquired_at, "2023-11-14T22:13:20+00:00");
    assert_eq!(copy.logged_at, "2023-11-14T22:14:20+00:00");

    let given = NewCopy { acquired_at: Some("2020-01-01".into()), ..a_copy() };
    let copy = add(&given, true, &mut clock).unwrap();
    assert_eq!(copy.acquired_at, "2020-01-01");
    assert_eq!(copy.logged_at, "2023-11-14T22:15:20+00:00");
}

#[test]
fn update_changes_editable_fields() {
    let entry = stored(1, &a_copy(), "2026-05-18", "owned");
    let edit = CopyEdit {
        condition: Some("Lightly Played".into()),
        language: None,
        purchase_price_bits: Some(3.50f64.to_bits()),
        sale_price_bits: None,
        notes: None,
        tags: None,
        graded: None,
        grade_company: None,
        grade_value_bits: None,
        grade_cert: None,
    };
    let after = update(&entry, &edit);
    assert_eq!(after.condition, "Lightly Played");
    assert_eq!(after.purchase_price_bits.map(f64::from_bits), Some(3.50));
    assert_eq!(after.language, "English"); // untouched
    assert_eq!(after.status, "owned");
}

#[test]
fn set_status_appends_to_log() {
    let change = set_status(7, &Some("owned".into()), "sold").unwrap();
    assert_eq!(change.from, "owned");
    assert_eq!(change.to, "sold");
    assert_eq!(set_status(7, &None, "sold"), Err(DbError::NotFound("collection entry 7".into())));
}

#[test]
fn move_to_logs_and_rejects_both() {
    let m = move_to(1, Some((None, None)), Some(1), None).unwrap();
    assert_eq!(
        m,
        Movement { from_binder: None, to_binder: Some(1), from_deck: None, to_deck: None }
    );
    let err = move_to(1, Some((Some(1), None)), Some(1), Some(1)).unwrap_err();
    assert!(matches!(err, DbError::Conflict(_)));
    assert_eq!(move_to(9, None, Some(2), None), Err(DbError::NotFound("collection entry 9".into())));
}

#[test]
fn change_printing_swaps_within_card_and_rejects_cross_card() {
    let card1 = Some("sv3pt5-1".to_string());
    // sv3pt5-1-normal -> sv3pt5-1-reverse_holo: the same card.
    assert!(change_printing(1, true, &card1, "sv3pt5-1-reverse_holo", &card1).is_ok());
    // sv3pt5-1-* -> sv3pt5-2-normal: another card.
    let err = change_printing(1, true, &card1, "sv3pt5-2-normal", &Some("sv3pt5-2".into())).unwrap_err();
    assert!(matches!(err, DbError::Conflict(_)));
    // An unknown printing, or no copy at all, is not found.
    assert_eq!(
        change_printing(1, true, &card1, "sv3pt5-1-nope", &None),
        Err(DbError::NotFound("printing 'sv3pt5-1-nope' is not in the catalog".into()))
    );
    assert_eq!(
        change_printing(5, false, &None, "sv3pt5-1-normal", &card1),
        Err(DbError::NotFound("collection entry 5".into()))
    );
}

#[test]
fn the_latest_copy_of_a_printing_is_the_highest_id() {
    let copies = vec![
        (3, "a".to_string()),
        (9, "b".to_string()),
        (7, "a".to_string()),
        (5, "a".to_string()),
    ];
    assert_eq!(latest_for_printing(&copies, "a"), Some(7));
    assert_eq!(latest_for_printing(&copies, "b"), Some(9));
    assert_eq!(latest_for_printing(&copies, "c"), None);
}
