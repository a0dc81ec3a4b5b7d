use pkdump_db::clock::{pin, Clock};
use pkdump_db::error::DbError;
use pkdump_db::manual_prices::{insert, NewManualPrice};
use pkdump_db::sealed::{add, update, NewSealed, SealedEdit};

fn a_box(product_id: i64) -> NewSealed {
    NewSealed {
        product_id,
        quantity: None,
        condition: None,
        purchase_price_bits: Some(49.99f64.to_bits()),
        purchase_date: None,
        source: None,
        seller_name: None,
        notes: None,
    }
}

fn no_edit() -> SealedEdit {
    SealedEdit {
        quantity: None,
        condition: None,
        purchase_price_bits: None,
        sale_price_bits: None,
        purchase_date: None,
        source: None,
        seller_name: None,
        notes: None,
        status: None,
    }
}

#[test]
fn add_list_update_dispose_delete() {
    let mut clock = Clock::wall();
    let entry = add(1, &a_box(5001), true, &mut clock).unwrap();
    assert_eq!(entry.product_id, 5001);
    assert_eq!(entry.quantity, 1);
    assert_eq!(entry.status, "owned");
    assert_eq!(entry.purchase_price_bits.map(f64::from_bits), Some(49.99));

    // Dispose by setting the status.
    let opened = update(&entry, &SealedEdit { status: Some("opened".into()), ..no_edit() });
    assert_eq!(opened.status, "opened");
    assert_eq!(opened.quantity, 1);
    assert_eq!(opened.added_at, entry.added_at);
}

#[test]
fn add_rejects_unknown_product() {
    let mut clock = Clock::wall();
    let err = add(1, &a_box(999999), false, &mut clock).unwrap_err();
    assert!(matches!(err, DbError::NotFound(_)));
    assert_eq!(err, DbError::NotFound("sealed product 999999 is not in the catalog".into()));
}

#[test]
fn a_sealed_add_is_stamped_from_the_clock_and_keeps_a_given_quantity() {
    let mut clock = Clock::wall();
    pin(&mut clock, 0, 1_000_000_000);
    let entry = add(4, &NewSealed { quantity: Some(3), ..a_box(5001) }, true, &mut clock).unwrap();
    assert_eq!(entry.quantity, 3);
    assert_eq!(entry.added_at, "1970-01-01T00:00:00+00:00");
    assert_eq!(entry.sale_price_bits, None);
}

#[test]
fn an_empty_sealed_edit_changes_nothing_and_an_edit_applies_once() {
    let mut clock = Clock::wall();
    let entry = add(1, &a_box(5001), true, &mut clock).unwrap();
    assert_eq!(update(&entry, &no_edit()), entry);
    let sold = SealedEdit {
        status: Some("sold".into()),
        sale_price_bits: Some(80.0f64.to_bits()),
        ..no_edit()
    };
    let once = update(&entry, &sold);
    assert_eq!(update(&once, &sold), once);
    assert_eq!(once.sale_price_bits.map(f64::from_bits), Some(80.0));
}

fn a_price(observed_at: Option<&str>) -> NewManualPrice {
    NewManualPrice {
        printing_id: "basep-14-normal".into(),
        price_bits: 200.0f64.to_bits(),
        observed_at: observed_at.map(|s| s.to_string()),
        note: Some("test".into()),
    }
}

#[test]
fn insert_defaults_observed_at_to_now() {
    let mut clock = Clock::wall();
    let row = insert(&a_price(None), true, &mut clock).unwrap();
    assert_eq!(f64::from_bits(row.price_bits), 200.0);
    let now = chrono::Utc::now();
    let parsed = chrono::DateTime::parse_from_rfc3339(&row.observed_at).unwrap();
    let delta = (now - parsed.with_timezone(&chrono::Utc)).num_seconds().abs();
    assert!(delta < 60, "observed_at not recent: {}", row.observed_at);
}

#[test]
fn insert_honors_explicit_observed_at() {
    let mut clock = Clock::wall();
    let row = insert(&a_price(Some("2024-03-01T00:00:00Z")), true, &mut clock).unwrap();
    assert_eq!(row.observed_at, "2024-03-01T00:00:00Z");
}

#[test]
fn insert_rejects_unknown_printing() {
    let mut clock = Clock::wall();
    let new = NewManualPrice { printing_id: "nope-0-normal".into(), ..a_price(None) };
    let err = insert(&new, false, &mut clock).unwrap_err();
    assert!(matches!(err, DbError::NotFound(_)));
    assert_eq!(err, DbError::NotFound("printing nope-0-normal".into()));
}
