use pkdump_db::conditions::{default_conditions, seed_defaults, Condition};

fn multiplier(table: &[Condition], name: &str) -> Option<f64> {
    table.iter().find(|c| c.name == name).map(|c| f64::from_bits(c.multiplier_bits))
}

fn opened(existing: Vec<Condition>) -> (Vec<Condition>, usize) {
    let inserted = seed_defaults(&existing, &default_conditions());
    let n = inserted.len();
    let mut table = existing;
    table.extend(inserted);
    (table, n)
}

#[test]
fn a_new_collection_is_seeded_with_the_five_conditions() {
    let (table, n) = opened(vec![]);
    assert_eq!(n, 5);
    assert_eq!(multiplier(&table, "Near Mint"), Some(1.0));
    assert_eq!(multiplier(&table, "Lightly Played"), Some(0.85));
    assert_eq!(multiplier(&table, "Moderately Played"), Some(0.65));
    assert_eq!(multiplier(&table, "Heavily Played"), Some(0.45));
    assert_eq!(multiplier(&table, "Damaged"), Some(0.25));
    assert_eq!(table.len(), 5);

    // Ordered best-first for display.
    let mut all = table.clone();
    all.sort_by_key(|c| c.rank);
    assert_eq!(all.first().unwrap().name, "Near Mint");
    assert_eq!(all.last().unwrap().name, "Damaged");
}

#[test]
fn seeding_an_already_seeded_collection_inserts_nothing() {
    let (table, _) = opened(vec![]);
    let (_, n) = opened(table);
    assert_eq!(n, 0);
}

#[test]
fn seeding_never_overwrites_a_multiplier_the_collection_already_holds() {
    let (mut table, _) = opened(vec![]);
    for c in table.iter_mut() {
        if c.name == "Near Mint" {
            c.multiplier_bits = 0.5f64.to_bits();
        }
    }
    let (table, n) = opened(table);
    assert_eq!(n, 0);
    assert_eq!(multiplier(&table, "Near Mint"), Some(0.5));
}

#[test]
fn a_missing_condition_is_restored_on_the_next_open() {
    let (table, _) = opened(vec![]);
    let without: Vec<Condition> = table.into_iter().filter(|c| c.name != "Damaged").collect();
    let (table, n) = opened(without);
    assert_eq!(n, 1);
    assert_eq!(multiplier(&table, "Damaged"), Some(0.25));
}

#[test]
fn a_seed_naming_a_condition_twice_inserts_it_once() {
    let twice = vec![
        Condition { name: "Mint".into(), multiplier_bits: 1.1f64.to_bits(), rank: 0 },
        Condition { name: "Mint".into(), multiplier_bits: 9.9f64.to_bits(), rank: 9 },
    ];
    let inserted = seed_defaults(&vec![], &twice);
    assert_eq!(inserted.len(), 1);
    assert_eq!(f64::from_bits(inserted[0].multiplier_bits), 1.1);
}
