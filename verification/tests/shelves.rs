use pkdump_db::error::DbError;
use pkdump_db::shelves::{
    edit_binder, edit_deck, new_batch, new_binder, new_deck, BinderEdit, DeckEdit, NewBatch,
    NewBinder, NewDeck,
};

fn a_binder(name: &str, pocket_size: Option<i64>) -> NewBinder {
    NewBinder {
        name: name.into(),
        description: None,
        color: None,
        binder_type: None,
        pocket_size,
        storage_location: None,
    }
}

fn no_binder_edit() -> BinderEdit {
    BinderEdit {
        name: None,
        description: None,
        color: None,
        binder_type: None,
        pocket_size: None,
        storage_location: None,
    }
}

fn a_deck(name: &str, owner: Option<&str>, state: Option<&str>) -> NewDeck {
    NewDeck {
        name: name.into(),
        description: None,
        format: None,
        owner: owner.map(String::from),
        state: state.map(String::from),
        sleeve_color: None,
        storage_location: None,
        notes: None,
    }
}

fn no_deck_edit() -> DeckEdit {
    DeckEdit {
        name: None,
        description: None,
        format: None,
        owner: None,
        state: None,
        sleeve_color: None,
        storage_location: None,
        notes: None,
    }
}

#[test]
fn binders_crud_round_trip() {
    let now = "2026-05-18T00:00:00+00:00".to_string();
    let b = new_binder(1, &a_binder("Trade Binder", Some(12)), &now);
    assert_eq!(b.name, "Trade Binder");
    assert_eq!(b.pocket_size, 12);
    assert_eq!(b.card_count, 0);

    let later = "2026-05-19T00:00:00+00:00".to_string();
    let renamed = edit_binder(&b, &BinderEdit { name: Some("Showcase".into()), ..no_binder_edit() }, &later);
    assert_eq!(renamed.name, "Showcase");
    assert_eq!(renamed.pocket_size, 12);
    assert_eq!(renamed.created_at, now);
    assert_eq!(renamed.updated_at, later);
}

#[test]
fn a_binder_has_nine_pockets_unless_told_otherwise() {
    let now = "2026-05-18".to_string();
    assert_eq!(new_binder(2, &a_binder("Bulk", None), &now).pocket_size, 9);
}

#[test]
fn an_empty_binder_edit_changes_only_the_stamp_and_an_edit_applies_once() {
    let now = "2026-05-18".to_string();
    let b = new_binder(1, &a_binder("Trade Binder", Some(12)), &now);
    let later = "2026-05-20".to_string();
    let same = edit_binder(&b, &no_binder_edit(), &later);
    assert_eq!(same.name, b.name);
    assert_eq!(same.pocket_size, b.pocket_size);
    assert_eq!(same.updated_at, later);

    let e = BinderEdit { color: Some("red".into()), pocket_size: Some(4), ..no_binder_edit() };
    let once = edit_binder(&b, &e, &later);
    assert_eq!(edit_binder(&once, &e, &later), once);
}

#[test]
fn decks_crud_round_trip() {
    let now = "2026-05-18".to_string();
    let d = new_deck(1, &a_deck("Alice's Charizard deck", Some("Alice"), None), &now).unwrap();
    assert_eq!(d.owner.as_deref(), Some("Alice"));
    assert_eq!(d.state, "idea"); // default lifecycle state
    assert_eq!(d.card_count, 0);

    let built = edit_deck(&d, &DeckEdit { state: Some("built".into()), ..no_deck_edit() }, &now).unwrap();
    assert_eq!(built.state, "built");
    assert_eq!(built.owner.as_deref(), Some("Alice"));
}

#[test]
fn rejects_invalid_state() {
    let now = "2026-05-18".to_string();
    let err = new_deck(1, &a_deck("Bad", None, Some("nonsense")), &now);
    assert!(err.is_err(), "the state check should reject this");
    assert!(matches!(err, Err(DbError::Sqlite(_))));

    let d = new_deck(1, &a_deck("Good", None, Some("ready")), &now).unwrap();
    let bad_edit = DeckEdit { state: Some("lost".into()), ..no_deck_edit() };
    assert!(matches!(edit_deck(&d, &bad_edit, &now), Err(DbError::Sqlite(_))));
}

#[test]
fn create_then_detail_with_cards() {
    let now = "2026-05-18".to_string();
    let batch = new_batch(
        7,
        &NewBatch {
            batch_type: "manual_id".into(),
            name: Some("Test batch".into()),
            notes: None,
            order_id: None,
            binder_id: None,
        },
        &now,
    );
    assert_eq!(batch.id, 7);
    assert_eq!(batch.batch_type, "manual_id");
    assert_eq!(batch.name.as_deref(), Some("Test batch"));
    assert_eq!(batch.card_count, 0);
    assert_eq!(batch.created_at, now);
}
