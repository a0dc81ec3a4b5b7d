use pkdump_db::error::DbError;
use pkdump_db::orders::{create, receive, OrderLine, OrderedCopy};

fn line(printing_id: &str, quantity: i64, price: Option<f64>) -> OrderLine {
    OrderLine {
        printing_id: printing_id.into(),
        quantity,
        purchase_price_bits: price.map(f64::to_bits),
    }
}

#[test]
fn commit_then_receive() {
    let plan = create("tcgplayer", &vec![line("sv3pt5-1-normal", 2, Some(1.25))], &vec![true]).unwrap();
    assert_eq!(plan.batch_type, "order_tcgplayer");
    assert_eq!(plan.lines.len(), 1);
    assert_eq!(plan.lines[0].copies, 2);
    assert_eq!(plan.lines[0].purchase_price_bits.map(f64::from_bits), Some(1.25));

    // The two `ordered` copies the commit wrote are what receiving flips.
    let copies = vec![
        OrderedCopy { id: 1, order_id: Some(1), status: "ordered".into() },
        OrderedCopy { id: 2, order_id: Some(1), status: "ordered".into() },
        OrderedCopy { id: 3, order_id: None, status: "owned".into() },
    ];
    let received = receive(&copies, 1);
    assert_eq!(received.len(), 2);
    assert_eq!(received, vec![1, 2]);
    // Receiving again finds nothing still ordered.
    let after: Vec<OrderedCopy> = copies
        .iter()
        .map(|c| OrderedCopy {
            status: if received.contains(&c.id) { "owned".into() } else { c.status.clone() },
            ..c.clone()
        })
        .collect();
    assert!(receive(&after, 1).is_empty());
}

#[test]
fn create_rejects_unknown_printing() {
    let err = create("tcgplayer", &vec![line("sv3pt5-1-nope", 1, None)], &vec![false]).unwrap_err();
    assert!(matches!(err, DbError::NotFound(_)));
}

#[test]
fn a_line_of_no_units_still_writes_one_copy() {
    let plan = create(
        "cardmarket",
        &vec![line("a", 0, None), line("b", -3, None), line("c", 4, None)],
        &vec![true, true, true],
    )
    .unwrap();
    let copies: Vec<i64> = plan.lines.iter().map(|l| l.copies).collect();
    assert_eq!(copies, vec![1, 1, 4]);
    assert_eq!(plan.batch_type, "order_cardmarket");
}

#[test]
fn receiving_skips_other_orders_and_copies_already_owned() {
    let copies = vec![
        OrderedCopy { id: 5, order_id: Some(2), status: "ordered".into() },
        OrderedCopy { id: 6, order_id: Some(1), status: "owned".into() },
        OrderedCopy { id: 7, order_id: Some(1), status: "ordered".into() },
    ];
    assert_eq!(receive(&copies, 1), vec![7]);
    assert_eq!(receive(&copies, 2), vec![5]);
    assert!(receive(&copies, 3).is_empty());
}
